//! The operand grammar: registers, memory-addressing expressions and
//! numeric immediates, each parser pinned to its specification-level
//! counterpart over `Seq<char>`.

use vstd::prelude::*;
use vstd::string::StrSliceExecFns;
use crate::error::ParseError;
use crate::immediate::Immediate;
use crate::instruction::Operand;
use crate::memory::Memory;
use crate::memory::Offset;
use crate::memory::spec_offset;
use crate::register::Len;
use crate::register::Register;
use crate::register::ax_aliases;
use crate::register::ax_table;
use crate::register::bp_aliases;
use crate::register::bp_table;
use crate::register::bx_aliases;
use crate::register::bx_table;
use crate::register::cx_aliases;
use crate::register::cx_table;
use crate::register::di_aliases;
use crate::register::di_table;
use crate::register::dx_aliases;
use crate::register::dx_table;
use crate::register::scan_table;
use crate::register::si_aliases;
use crate::register::si_table;
use crate::register::sp_aliases;
use crate::register::sp_table;
use crate::register::spec_scan;

verus! {

/// A space character, the only whitespace the grammar trims.
pub open spec fn is_space(c: char) -> bool {
    c == ' '
}

/// The first position at or after `pos` that does not hold a space.
pub open spec fn skip_spaces(s: Seq<char>, pos: int) -> int
    decreases s.len() - pos,
{
    if 0 <= pos < s.len() && is_space(s[pos]) {
        skip_spaces(s, pos + 1)
    } else {
        pos
    }
}

pub proof fn lemma_skip_spaces_bounds(s: Seq<char>, pos: int)
    requires
        0 <= pos <= s.len(),
    ensures
        pos <= skip_spaces(s, pos) <= s.len(),
    decreases s.len() - pos,
{
    if pos < s.len() && is_space(s[pos]) {
        lemma_skip_spaces_bounds(s, pos + 1);
    }
}

/// The literal `lit` occurs in `s` starting at `pos`.
pub open spec fn match_at(s: Seq<char>, pos: int, lit: Seq<char>) -> bool
    decreases lit.len(),
{
    if !(0 <= pos && pos + lit.len() <= s.len()) {
        false
    } else if lit.len() == 0 {
        true
    } else {
        s[pos] == lit[0] && match_at(s, pos + 1, lit.drop_first())
    }
}

/// `match_at` read character by character.
pub proof fn lemma_match_at_chars(s: Seq<char>, pos: int, lit: Seq<char>)
    ensures
        match_at(s, pos, lit) <==> (0 <= pos && pos + lit.len() <= s.len() && forall|j: int|
            0 <= j < lit.len() ==> s[pos + j] == lit[j]),
    decreases lit.len(),
{
    if 0 <= pos && pos + lit.len() <= s.len() && lit.len() > 0 {
        lemma_match_at_chars(s, pos + 1, lit.drop_first());
        let tail = lit.drop_first();
        if match_at(s, pos, lit) {
            assert forall|j: int| 0 <= j < lit.len() implies s[pos + j] == lit[j] by {
                if j > 0 {
                    assert(s[pos + 1 + (j - 1)] == tail[j - 1]);
                }
            }
        } else {
            if s[pos] == lit[0] {
                assert(!match_at(s, pos + 1, tail));
                let j = choose|j: int| 0 <= j < tail.len() && s[pos + 1 + j] != tail[j];
                assert(s[pos + (j + 1)] != lit[j + 1]);
            }
        }
    }
}

/// Advance past any spaces, starting at `pos`.
pub fn eat_spaces(input: &str, pos: usize) -> (r: usize)
    requires
        pos <= input@.len(),
    ensures
        r == skip_spaces(input@, pos as int),
        pos <= r <= input@.len(),
{
    let mut i: usize = pos;
    while i < input.unicode_len() && input.get_char(i) == ' '
        invariant
            pos <= i <= input@.len(),
            skip_spaces(input@, pos as int) == skip_spaces(input@, i as int),
        decreases input@.len() - i,
    {
        i = i + 1;
    }
    i
}

/// Does `lit` occur in `input` starting at `pos`?
pub fn eat_lit(input: &str, pos: usize, lit: &str) -> (r: bool)
    requires
        pos <= input@.len(),
    ensures
        r == match_at(input@, pos as int, lit@),
{
    proof {
        lemma_match_at_chars(input@, pos as int, lit@);
    }
    let n: usize = lit.unicode_len();
    let ilen: usize = input.unicode_len();
    if ilen - pos < n {
        return false;
    }
    let mut j: usize = 0;
    while j < n
        invariant
            0 <= j <= n,
            n == lit@.len(),
            ilen == input@.len(),
            pos + n <= ilen,
            match_at(input@, pos as int, lit@) <==> (forall|k: int|
                0 <= k < n ==> input@[pos + k] == lit@[k]),
            forall|k: int| 0 <= k < j ==> input@[pos + k] == lit@[k],
        decreases n - j,
    {
        if input.get_char(pos + j) != lit.get_char(j) {
            return false;
        }
        j = j + 1;
    }
    true
}

/// Consume `lit` at `pos` if it occurs there, yielding the position past it.
pub fn eat_tag(input: &str, pos: usize, lit: &str) -> (r: Option<usize>)
    requires
        pos <= input@.len(),
    ensures
        match r {
            Some(p) => {
                &&& match_at(input@, pos as int, lit@)
                &&& p == pos + lit@.len()
                &&& p <= input@.len()
            },
            None => !match_at(input@, pos as int, lit@),
        },
{
    if eat_lit(input, pos, lit) {
        let ilen: usize = input.unicode_len();
        let n: usize = lit.unicode_len();
        assert(pos + n <= ilen);
        Some(pos + n)
    } else {
        None
    }
}

/// The general-purpose register alternation: the eight family tables tried
/// in declared order, first match wins.
pub open spec fn spec_gp_register(s: Seq<char>, pos: int) -> Option<(int, Register)> {
    match spec_scan(s, pos, ax_table()) {
        Some((p, l)) => Some((p, Register::AX(l))),
        None => match spec_scan(s, pos, cx_table()) {
            Some((p, l)) => Some((p, Register::CX(l))),
            None => match spec_scan(s, pos, dx_table()) {
                Some((p, l)) => Some((p, Register::DX(l))),
                None => match spec_scan(s, pos, bx_table()) {
                    Some((p, l)) => Some((p, Register::BX(l))),
                    None => match spec_scan(s, pos, sp_table()) {
                        Some((p, l)) => Some((p, Register::SP(l))),
                        None => match spec_scan(s, pos, bp_table()) {
                            Some((p, l)) => Some((p, Register::BP(l))),
                            None => match spec_scan(s, pos, si_table()) {
                                Some((p, l)) => Some((p, Register::SI(l))),
                                None => match spec_scan(s, pos, di_table()) {
                                    Some((p, l)) => Some((p, Register::DI(l))),
                                    None => None,
                                },
                            },
                        },
                    },
                },
            },
        },
    }
}

/// The segment-register alternation, tried only after every family fails.
pub open spec fn spec_seg_register(s: Seq<char>, pos: int) -> Option<(int, Register)> {
    if match_at(s, pos, "ss"@) {
        Some((pos + "ss"@.len(), Register::SS))
    } else if match_at(s, pos, "cs"@) {
        Some((pos + "cs"@.len(), Register::CS))
    } else if match_at(s, pos, "ds"@) {
        Some((pos + "ds"@.len(), Register::DS))
    } else if match_at(s, pos, "es"@) {
        Some((pos + "es"@.len(), Register::ES))
    } else if match_at(s, pos, "gs"@) {
        Some((pos + "gs"@.len(), Register::GS))
    } else if match_at(s, pos, "fs"@) {
        Some((pos + "fs"@.len(), Register::FS))
    } else {
        None
    }
}

/// Any register: the eight families first, then the segment registers.
pub open spec fn spec_any_register(s: Seq<char>, pos: int) -> Option<(int, Register)> {
    match spec_gp_register(s, pos) {
        Some(r) => Some(r),
        None => spec_seg_register(s, pos),
    }
}

/// The register production: spaces, one alias, spaces. `Tag` when no alias
/// of any family and no segment literal occurs at the trimmed position.
pub open spec fn spec_register(s: Seq<char>, pos: int) -> Result<(int, Register), ParseError> {
    let p1 = skip_spaces(s, pos);
    match spec_any_register(s, p1) {
        Some((p2, reg)) => Ok((skip_spaces(s, p2), reg)),
        None => Err(ParseError::Tag),
    }
}

/// Recognize a segment register literal at `pos` (no space trimming).
pub fn seg_register(input: &str, pos: usize) -> (r: Result<(usize, Register), ParseError>)
    requires
        pos <= input@.len(),
    ensures
        match r {
            Ok((p, reg)) => {
                &&& spec_seg_register(input@, pos as int) == Some((p as int, reg))
                &&& pos <= p <= input@.len()
            },
            Err(e) => {
                &&& spec_seg_register(input@, pos as int) is None
                &&& e == ParseError::Tag
            },
        },
{
    if let Some(p) = eat_tag(input, pos, "ss") {
        Ok((p, Register::SS))
    } else if let Some(p) = eat_tag(input, pos, "cs") {
        Ok((p, Register::CS))
    } else if let Some(p) = eat_tag(input, pos, "ds") {
        Ok((p, Register::DS))
    } else if let Some(p) = eat_tag(input, pos, "es") {
        Ok((p, Register::ES))
    } else if let Some(p) = eat_tag(input, pos, "gs") {
        Ok((p, Register::GS))
    } else if let Some(p) = eat_tag(input, pos, "fs") {
        Ok((p, Register::FS))
    } else {
        Err(ParseError::Tag)
    }
}

/// Recognize a general-purpose register alias at `pos` (no space trimming).
fn gp_register(input: &str, pos: usize) -> (r: Option<(usize, Register)>)
    requires
        pos <= input@.len(),
    ensures
        match r {
            Some((p, reg)) => {
                &&& spec_gp_register(input@, pos as int) == Some((p as int, reg))
                &&& pos <= p <= input@.len()
            },
            None => spec_gp_register(input@, pos as int) is None,
        },
{
    let t = ax_aliases();
    if let Some((p, l)) = scan_table(input, pos, &t) {
        return Some((p, Register::AX(l)));
    }
    let t = cx_aliases();
    if let Some((p, l)) = scan_table(input, pos, &t) {
        return Some((p, Register::CX(l)));
    }
    let t = dx_aliases();
    if let Some((p, l)) = scan_table(input, pos, &t) {
        return Some((p, Register::DX(l)));
    }
    let t = bx_aliases();
    if let Some((p, l)) = scan_table(input, pos, &t) {
        return Some((p, Register::BX(l)));
    }
    let t = sp_aliases();
    if let Some((p, l)) = scan_table(input, pos, &t) {
        return Some((p, Register::SP(l)));
    }
    let t = bp_aliases();
    if let Some((p, l)) = scan_table(input, pos, &t) {
        return Some((p, Register::BP(l)));
    }
    let t = si_aliases();
    if let Some((p, l)) = scan_table(input, pos, &t) {
        return Some((p, Register::SI(l)));
    }
    let t = di_aliases();
    if let Some((p, l)) = scan_table(input, pos, &t) {
        return Some((p, Register::DI(l)));
    }
    None
}

/// Recognize any register at `pos`: families first, then segments.
fn any_register(input: &str, pos: usize) -> (r: Option<(usize, Register)>)
    requires
        pos <= input@.len(),
    ensures
        match r {
            Some((p, reg)) => {
                &&& spec_any_register(input@, pos as int) == Some((p as int, reg))
                &&& pos <= p <= input@.len()
            },
            None => spec_any_register(input@, pos as int) is None,
        },
{
    if let Some((p, reg)) = gp_register(input, pos) {
        return Some((p, reg));
    }
    match seg_register(input, pos) {
        Ok((p, reg)) => Some((p, reg)),
        Err(_) => None,
    }
}

/// Parse a register at `pos`, yielding the bare `Register` value.
fn register_value(input: &str, pos: usize) -> (r: Result<(usize, Register), ParseError>)
    requires
        pos <= input@.len(),
    ensures
        match r {
            Ok((p, reg)) => {
                &&& spec_register(input@, pos as int) == Ok::<(int, Register), ParseError>(
                    (p as int, reg),
                )
                &&& pos <= p <= input@.len()
            },
            Err(e) => spec_register(input@, pos as int) == Err::<(int, Register), ParseError>(e),
        },
{
    let p1 = eat_spaces(input, pos);
    match any_register(input, p1) {
        Some((p2, reg)) => {
            let p3 = eat_spaces(input, p2);
            Ok((p3, reg))
        },
        None => Err(ParseError::Tag),
    }
}

/// Parse a register operand at `pos`: surrounding spaces are trimmed, the
/// alias alternation decides, and `Tag` is returned when nothing matches.
pub fn register(input: &str, pos: usize) -> (r: Result<(usize, Operand), ParseError>)
    requires
        pos <= input@.len(),
    ensures
        match r {
            Ok((p, op)) => {
                &&& spec_register(input@, pos as int) matches Ok((q, reg)) && q == p as int
                    && op == Operand::Register(reg)
                &&& pos <= p <= input@.len()
            },
            Err(e) => spec_register(input@, pos as int) == Err::<(int, Register), ParseError>(e),
        },
{
    match register_value(input, pos) {
        Ok((p, reg)) => Ok((p, Operand::Register(reg))),
        Err(e) => Err(e),
    }
}

/// A base-2 digit.
pub open spec fn spec_is_binary(c: char) -> bool {
    c == '0' || c == '1'
}

/// A base-10 digit.
pub open spec fn spec_is_digit(c: char) -> bool {
    '0' as u32 <= c as u32 && c as u32 <= '9' as u32
}

/// A base-16 digit, either case.
pub open spec fn spec_is_hex_digit(c: char) -> bool {
    ||| spec_is_digit(c)
    ||| 'a' as u32 <= c as u32 && c as u32 <= 'f' as u32
    ||| 'A' as u32 <= c as u32 && c as u32 <= 'F' as u32
}

/// Is `c` a digit of the given radix? Only 2, 10 and 16 are used.
pub open spec fn digit_ok(c: char, radix: nat) -> bool {
    if radix == 2 {
        spec_is_binary(c)
    } else if radix == 16 {
        spec_is_hex_digit(c)
    } else {
        spec_is_digit(c)
    }
}

/// The numeric value of one digit character; 0 on anything else.
pub open spec fn digit_val(c: char) -> nat {
    let u = c as u32;
    if '0' as u32 <= u && u <= '9' as u32 {
        (u - '0' as u32) as nat
    } else if 'a' as u32 <= u && u <= 'f' as u32 {
        (u - 'a' as u32 + 10) as nat
    } else if 'A' as u32 <= u && u <= 'F' as u32 {
        (u - 'A' as u32 + 10) as nat
    } else {
        0
    }
}

/// The unbounded value of a digit run read in the given radix.
pub open spec fn digits_val(s: Seq<char>, radix: nat) -> nat
    decreases s.len(),
{
    if s.len() == 0 {
        0
    } else {
        digits_val(s.drop_last(), radix) * radix + digit_val(s.last())
    }
}

/// The first position at or after `pos` that does not hold a digit of the
/// given radix: the end of the longest digit run starting at `pos`.
pub open spec fn digit_run_end(s: Seq<char>, pos: int, radix: nat) -> int
    decreases s.len() - pos,
{
    if 0 <= pos < s.len() && digit_ok(s[pos], radix) {
        digit_run_end(s, pos + 1, radix)
    } else {
        pos
    }
}

pub proof fn lemma_digit_run_end_bounds(s: Seq<char>, pos: int, radix: nat)
    requires
        0 <= pos <= s.len(),
    ensures
        pos <= digit_run_end(s, pos, radix) <= s.len(),
    decreases s.len() - pos,
{
    if pos < s.len() && digit_ok(s[pos], radix) {
        lemma_digit_run_end_bounds(s, pos + 1, radix);
    }
}

/// Every character of a digit run is a digit of its radix.
pub proof fn lemma_digit_run_valid(s: Seq<char>, pos: int, radix: nat)
    requires
        0 <= pos <= s.len(),
    ensures
        forall|j: int| pos <= j < digit_run_end(s, pos, radix) ==> digit_ok(s[j], radix),
    decreases s.len() - pos,
{
    if pos < s.len() && digit_ok(s[pos], radix) {
        lemma_digit_run_valid(s, pos + 1, radix);
    }
}

/// A digit run's value only grows as the run extends to the right.
pub proof fn lemma_digits_val_prefix(s: Seq<char>, radix: nat, j: int)
    requires
        radix >= 2,
        0 <= j <= s.len(),
    ensures
        digits_val(s.subrange(0, j), radix) <= digits_val(s, radix),
    decreases s.len() - j,
{
    if j == s.len() {
        assert(s.subrange(0, j) =~= s);
    } else {
        lemma_digits_val_prefix(s, radix, j + 1);
        assert(s.subrange(0, j + 1).drop_last() =~= s.subrange(0, j));
        let a = digits_val(s.subrange(0, j), radix);
        assert(a * radix >= a) by (nonlinear_arith)
            requires
                radix >= 2,
                a >= 0,
        ;
    }
}

/// What converting a whole digit run in the given radix yields: its value,
/// or `Malformed` when the run is empty, holds a stray character, or does
/// not fit in 64 bits.
pub open spec fn spec_from_digits(s: Seq<char>, radix: nat) -> Result<u64, ParseError> {
    if s.len() == 0 {
        Err(ParseError::Malformed)
    } else if exists|i: int| 0 <= i < s.len() && !digit_ok(s[i], radix) {
        Err(ParseError::Malformed)
    } else if digits_val(s, radix) > u64::MAX {
        Err(ParseError::Malformed)
    } else {
        Ok(digits_val(s, radix) as u64)
    }
}

pub fn is_binary(c: char) -> (r: bool)
    ensures
        r == spec_is_binary(c),
{
    c == '0' || c == '1'
}

pub fn is_digit(c: char) -> (r: bool)
    ensures
        r == spec_is_digit(c),
{
    let u = c as u32;
    48 <= u && u <= 57
}

pub fn is_hex_digit(c: char) -> (r: bool)
    ensures
        r == spec_is_hex_digit(c),
{
    let u = c as u32;
    (48 <= u && u <= 57) || (97 <= u && u <= 102) || (65 <= u && u <= 70)
}

/// The value of one digit character.
fn digit_value(c: char) -> (r: u32)
    ensures
        r == digit_val(c),
{
    let u = c as u32;
    if 48 <= u && u <= 57 {
        u - 48
    } else if 97 <= u && u <= 102 {
        u - 97 + 10
    } else if 65 <= u && u <= 70 {
        u - 65 + 10
    } else {
        0
    }
}

/// Convert a whole string of digits in the given radix.
fn digits_to_u64(s: &str, radix: u32) -> (r: Result<u64, ParseError>)
    requires
        radix == 2 || radix == 10 || radix == 16,
    ensures
        r == spec_from_digits(s@, radix as nat),
{
    let n: usize = s.unicode_len();
    if n == 0 {
        return Err(ParseError::Malformed);
    }
    let mut acc: u64 = 0;
    let mut i: usize = 0;
    while i < n
        invariant
            radix == 2 || radix == 10 || radix == 16,
            n == s@.len(),
            0 < n,
            i <= n,
            forall|k: int| 0 <= k < i ==> digit_ok(s@[k], radix as nat),
            acc == digits_val(s@.subrange(0, i as int), radix as nat),
        decreases n - i,
    {
        let c = s.get_char(i);
        let ok = if radix == 2 {
            is_binary(c)
        } else if radix == 16 {
            is_hex_digit(c)
        } else {
            is_digit(c)
        };
        if !ok {
            assert(!digit_ok(s@[i as int], radix as nat));
            return Err(ParseError::Malformed);
        }
        let d = digit_value(c);
        proof {
            assert(s@.subrange(0, i + 1).drop_last() =~= s@.subrange(0, i as int));
            assert(s@.subrange(0, i + 1).last() == s@[i as int]);
        }
        let step = match acc.checked_mul(radix as u64) {
            Some(m) => m.checked_add(d as u64),
            None => None,
        };
        match step {
            Some(next) => {
                acc = next;
            },
            None => {
                proof {
                    assert(digits_val(s@.subrange(0, i + 1), radix as nat) > u64::MAX);
                    lemma_digits_val_prefix(s@, radix as nat, i + 1);
                }
                return Err(ParseError::Malformed);
            },
        }
        i = i + 1;
    }
    proof {
        assert(s@.subrange(0, n as int) =~= s@);
    }
    Ok(acc)
}

pub fn from_decimal(s: &str) -> (r: Result<u64, ParseError>)
    ensures
        r == spec_from_digits(s@, 10),
{
    digits_to_u64(s, 10)
}

pub fn from_binary(s: &str) -> (r: Result<u64, ParseError>)
    ensures
        r == spec_from_digits(s@, 2),
{
    digits_to_u64(s, 2)
}

pub fn from_hex(s: &str) -> (r: Result<u64, ParseError>)
    ensures
        r == spec_from_digits(s@, 16),
{
    digits_to_u64(s, 16)
}

/// The longest digit run at `start`, converted in the given radix.
pub open spec fn spec_radix_digits(s: Seq<char>, start: int, radix: nat) -> Result<
    (int, u64),
    ParseError,
> {
    let end = digit_run_end(s, start, radix);
    match spec_from_digits(s.subrange(start, end), radix) {
        Ok(v) => Ok((end, v)),
        Err(e) => Err(e),
    }
}

/// The digit-literal production: a `0b` prefix selects base 2, a `0x`
/// prefix base 16, otherwise base 10 is assumed; then the longest digit
/// run of that radix is consumed and converted.
pub open spec fn spec_digits(s: Seq<char>, pos: int) -> Result<(int, u64), ParseError> {
    if match_at(s, pos, "0b"@) {
        spec_radix_digits(s, pos + "0b"@.len(), 2)
    } else if match_at(s, pos, "0x"@) {
        spec_radix_digits(s, pos + "0x"@.len(), 16)
    } else {
        spec_radix_digits(s, pos, 10)
    }
}

/// The immediate production: spaces, a digit literal, spaces.
pub open spec fn spec_immediate(s: Seq<char>, pos: int) -> Result<(int, u64), ParseError> {
    let p1 = skip_spaces(s, pos);
    match spec_digits(s, p1) {
        Ok((p2, v)) => Ok((skip_spaces(s, p2), v)),
        Err(e) => Err(e),
    }
}

/// Is `c` a digit of the (executable) radix?
fn is_radix_digit(c: char, radix: u32) -> (r: bool)
    requires
        radix == 2 || radix == 10 || radix == 16,
    ensures
        r == digit_ok(c, radix as nat),
{
    if radix == 2 {
        is_binary(c)
    } else if radix == 16 {
        is_hex_digit(c)
    } else {
        is_digit(c)
    }
}

/// Advance past the longest digit run of the given radix.
fn digit_run(input: &str, pos: usize, radix: u32) -> (r: usize)
    requires
        pos <= input@.len(),
        radix == 2 || radix == 10 || radix == 16,
    ensures
        r == digit_run_end(input@, pos as int, radix as nat),
        pos <= r <= input@.len(),
{
    let ilen: usize = input.unicode_len();
    let mut i: usize = pos;
    while i < ilen && is_radix_digit(input.get_char(i), radix)
        invariant
            radix == 2 || radix == 10 || radix == 16,
            ilen == input@.len(),
            pos <= i <= ilen,
            digit_run_end(input@, pos as int, radix as nat) == digit_run_end(
                input@,
                i as int,
                radix as nat,
            ),
        decreases ilen - i,
    {
        i = i + 1;
    }
    i
}

/// Consume and convert the longest digit run at `start`.
fn radix_digits_at(input: &str, start: usize, radix: u32) -> (r: Result<(usize, u64), ParseError>)
    requires
        start <= input@.len(),
        radix == 2 || radix == 10 || radix == 16,
    ensures
        match r {
            Ok((p, v)) => {
                &&& spec_radix_digits(input@, start as int, radix as nat) == Ok::<
                    (int, u64),
                    ParseError,
                >((p as int, v))
                &&& start <= p <= input@.len()
            },
            Err(e) => spec_radix_digits(input@, start as int, radix as nat) == Err::<
                (int, u64),
                ParseError,
            >(e),
        },
{
    let end = digit_run(input, start, radix);
    let run = input.substring_char(start, end);
    proof {
        lemma_digit_run_valid(input@, start as int, radix as nat);
        assert(forall|i: int|
            0 <= i < run@.len() ==> run@[i] == input@[start + i] && digit_ok(
                run@[i],
                radix as nat,
            ));
    }
    match digits_to_u64(run, radix) {
        Ok(v) => Ok((end, v)),
        Err(e) => Err(e),
    }
}

/// Parse a digit literal at `pos`: radix chosen by prefix, longest run
/// consumed, value returned; `Malformed` on an empty run or 64-bit overflow.
pub fn digits(input: &str, pos: usize) -> (r: Result<(usize, u64), ParseError>)
    requires
        pos <= input@.len(),
    ensures
        match r {
            Ok((p, v)) => {
                &&& spec_digits(input@, pos as int) == Ok::<(int, u64), ParseError>((p as int, v))
                &&& pos <= p <= input@.len()
            },
            Err(e) => spec_digits(input@, pos as int) == Err::<(int, u64), ParseError>(e),
        },
{
    if eat_lit(input, pos, "0b") {
        binary_digits(input, pos)
    } else if eat_lit(input, pos, "0x") {
        hex_digits(input, pos)
    } else {
        decimal_digits(input, pos)
    }
}

/// Parse a `0b`-prefixed binary literal at `pos`; `Tag` without the prefix.
pub fn binary_digits(input: &str, pos: usize) -> (r: Result<(usize, u64), ParseError>)
    requires
        pos <= input@.len(),
    ensures
        match_at(input@, pos as int, "0b"@) ==> match r {
            Ok((p, v)) => {
                &&& spec_radix_digits(input@, pos + "0b"@.len(), 2) == Ok::<
                    (int, u64),
                    ParseError,
                >((p as int, v))
                &&& pos <= p <= input@.len()
            },
            Err(e) => spec_radix_digits(input@, pos + "0b"@.len(), 2) == Err::<
                (int, u64),
                ParseError,
            >(e),
        },
        !match_at(input@, pos as int, "0b"@) ==> r == Err::<(usize, u64), ParseError>(
            ParseError::Tag,
        ),
{
    match eat_tag(input, pos, "0b") {
        Some(start) => radix_digits_at(input, start, 2),
        None => Err(ParseError::Tag),
    }
}

/// Parse a `0x`-prefixed hex literal at `pos`; `Tag` without the prefix.
pub fn hex_digits(input: &str, pos: usize) -> (r: Result<(usize, u64), ParseError>)
    requires
        pos <= input@.len(),
    ensures
        match_at(input@, pos as int, "0x"@) ==> match r {
            Ok((p, v)) => {
                &&& spec_radix_digits(input@, pos + "0x"@.len(), 16) == Ok::<
                    (int, u64),
                    ParseError,
                >((p as int, v))
                &&& pos <= p <= input@.len()
            },
            Err(e) => spec_radix_digits(input@, pos + "0x"@.len(), 16) == Err::<
                (int, u64),
                ParseError,
            >(e),
        },
        !match_at(input@, pos as int, "0x"@) ==> r == Err::<(usize, u64), ParseError>(
            ParseError::Tag,
        ),
{
    match eat_tag(input, pos, "0x") {
        Some(start) => radix_digits_at(input, start, 16),
        None => Err(ParseError::Tag),
    }
}

/// Parse an unprefixed decimal literal at `pos`.
pub fn decimal_digits(input: &str, pos: usize) -> (r: Result<(usize, u64), ParseError>)
    requires
        pos <= input@.len(),
    ensures
        match r {
            Ok((p, v)) => {
                &&& spec_radix_digits(input@, pos as int, 10) == Ok::<(int, u64), ParseError>(
                    (p as int, v),
                )
                &&& pos <= p <= input@.len()
            },
            Err(e) => spec_radix_digits(input@, pos as int, 10) == Err::<(int, u64), ParseError>(
                e,
            ),
        },
{
    radix_digits_at(input, pos, 10)
}

/// Parse an immediate at `pos`, yielding the bare 64-bit value.
fn immediate_value(input: &str, pos: usize) -> (r: Result<(usize, u64), ParseError>)
    requires
        pos <= input@.len(),
    ensures
        match r {
            Ok((p, v)) => {
                &&& spec_immediate(input@, pos as int) == Ok::<(int, u64), ParseError>(
                    (p as int, v),
                )
                &&& pos <= p <= input@.len()
            },
            Err(e) => spec_immediate(input@, pos as int) == Err::<(int, u64), ParseError>(e),
        },
{
    let p1 = eat_spaces(input, pos);
    match digits(input, p1) {
        Ok((p2, v)) => {
            let p3 = eat_spaces(input, p2);
            Ok((p3, v))
        },
        Err(e) => Err(e),
    }
}

/// Parse an immediate operand at `pos`: surrounding spaces are trimmed and
/// the digit literal's value is wrapped, with no width classification.
pub fn immediate(input: &str, pos: usize) -> (r: Result<(usize, Operand), ParseError>)
    requires
        pos <= input@.len(),
    ensures
        match r {
            Ok((p, op)) => {
                &&& spec_immediate(input@, pos as int) matches Ok((q, v)) && q == p as int && op
                    == Operand::Immediate(Immediate(v))
                &&& pos <= p <= input@.len()
            },
            Err(e) => spec_immediate(input@, pos as int) == Err::<(int, u64), ParseError>(e),
        },
{
    match immediate_value(input, pos) {
        Ok((p, v)) => Ok((p, Operand::Immediate(Immediate(v)))),
        Err(e) => Err(e),
    }
}

/// Validation of the base+index form: the offset must fit 16 bits, the
/// base must be 16-bit BX or BP, the index 16-bit SI or DI; the variant
/// then names exactly that register pair.
pub open spec fn spec_from_type1(reg1: Register, reg2: Register, v: u64) -> Result<
    Memory,
    ParseError,
> {
    match spec_offset(v) {
        Err(e) => Err(e),
        Ok(off) => {
            if reg1 == Register::BX(Len::Low16) {
                if reg2 == Register::SI(Len::Low16) {
                    Ok(Memory::BXSI(off))
                } else if reg2 == Register::DI(Len::Low16) {
                    Ok(Memory::BXDI(off))
                } else {
                    Err(ParseError::Verify)
                }
            } else if reg1 == Register::BP(Len::Low16) {
                if reg2 == Register::SI(Len::Low16) {
                    Ok(Memory::BPSI(off))
                } else if reg2 == Register::DI(Len::Low16) {
                    Ok(Memory::BPDI(off))
                } else {
                    Err(ParseError::Verify)
                }
            } else {
                Err(ParseError::Verify)
            }
        },
    }
}

/// Validation of the single-base form: the offset must fit 16 bits and the
/// register must be 16-bit BX, BP, SI or DI.
pub open spec fn spec_from_type2(reg: Register, v: u64) -> Result<Memory, ParseError> {
    match spec_offset(v) {
        Err(e) => Err(e),
        Ok(off) => {
            if reg == Register::BX(Len::Low16) {
                Ok(Memory::BX(off))
            } else if reg == Register::BP(Len::Low16) {
                Ok(Memory::BP(off))
            } else if reg == Register::SI(Len::Low16) {
                Ok(Memory::SI(off))
            } else if reg == Register::DI(Len::Low16) {
                Ok(Memory::DI(off))
            } else {
                Err(ParseError::Verify)
            }
        },
    }
}

/// The base+index+offset production. `None` is a structural mismatch (the
/// shape `reg + reg + imm` is not there and a later production may be
/// tried); `Some(Err(_))` is a terminal validation failure.
pub open spec fn spec_mem_type1(s: Seq<char>, pos: int) -> Option<
    Result<(int, Memory), ParseError>,
> {
    match spec_register(s, pos) {
        Err(_) => None,
        Ok((p1, r1)) => if !match_at(s, p1, "+"@) {
            None
        } else {
            match spec_register(s, p1 + "+"@.len()) {
                Err(_) => None,
                Ok((p2, r2)) => if !match_at(s, p2, "+"@) {
                    None
                } else {
                    match spec_immediate(s, p2 + "+"@.len()) {
                        Err(_) => None,
                        Ok((p3, v)) => match spec_from_type1(r1, r2, v) {
                            Ok(m) => Some(Ok((p3, m))),
                            Err(e) => Some(Err(e)),
                        },
                    }
                },
            }
        },
    }
}

/// The base+offset production, tried after the base+index form fails
/// structurally.
pub open spec fn spec_mem_type2(s: Seq<char>, pos: int) -> Option<
    Result<(int, Memory), ParseError>,
> {
    match spec_register(s, pos) {
        Err(_) => None,
        Ok((p1, r1)) => if !match_at(s, p1, "+"@) {
            None
        } else {
            match spec_immediate(s, p1 + "+"@.len()) {
                Err(_) => None,
                Ok((p2, v)) => match spec_from_type2(r1, v) {
                    Ok(m) => Some(Ok((p2, m))),
                    Err(e) => Some(Err(e)),
                },
            }
        },
    }
}

/// The offset-only production: a bare immediate, narrowed to an offset.
pub open spec fn spec_mem_type3(s: Seq<char>, pos: int) -> Result<(int, Memory), ParseError> {
    match spec_immediate(s, pos) {
        Err(e) => Err(e),
        Ok((p, v)) => match spec_offset(v) {
            Err(e) => Err(e),
            Ok(off) => Ok((p, Memory::Offset(off))),
        },
    }
}

/// Inside the brackets: the three productions in fixed order, first
/// structural match wins, and its validation verdict is final.
pub open spec fn spec_mem_inner(s: Seq<char>, pos: int) -> Result<(int, Memory), ParseError> {
    match spec_mem_type1(s, pos) {
        Some(r) => r,
        None => match spec_mem_type2(s, pos) {
            Some(r) => r,
            None => spec_mem_type3(s, pos),
        },
    }
}

/// The memory production: spaces, `[`, one of the three inner productions,
/// `]`, spaces.
pub open spec fn spec_memory(s: Seq<char>, pos: int) -> Result<(int, Memory), ParseError> {
    let p0 = skip_spaces(s, pos);
    if !match_at(s, p0, "["@) {
        Err(ParseError::Tag)
    } else {
        match spec_mem_inner(s, p0 + "["@.len()) {
            Err(e) => Err(e),
            Ok((p1, m)) => if !match_at(s, p1, "]"@) {
                Err(ParseError::Tag)
            } else {
                Ok((skip_spaces(s, p1 + "]"@.len()), m))
            },
        }
    }
}

/// Build the base+index memory operand, checking offset and register
/// legality in the order the grammar fixes.
pub fn memory_from_type1(reg1: Register, reg2: Register, offset: Immediate) -> (r: Result<
    Memory,
    ParseError,
>)
    ensures
        r == spec_from_type1(reg1, reg2, offset.0),
{
    match Offset::try_from(offset) {
        Err(e) => Err(e),
        Ok(off) => match reg1 {
            Register::BX(Len::Low16) => match reg2 {
                Register::SI(Len::Low16) => Ok(Memory::BXSI(off)),
                Register::DI(Len::Low16) => Ok(Memory::BXDI(off)),
                _ => Err(ParseError::Verify),
            },
            Register::BP(Len::Low16) => match reg2 {
                Register::SI(Len::Low16) => Ok(Memory::BPSI(off)),
                Register::DI(Len::Low16) => Ok(Memory::BPDI(off)),
                _ => Err(ParseError::Verify),
            },
            _ => Err(ParseError::Verify),
        },
    }
}

/// Build the single-base memory operand, checking offset and register
/// legality.
pub fn memory_from_type2(reg: Register, offset: Immediate) -> (r: Result<Memory, ParseError>)
    ensures
        r == spec_from_type2(reg, offset.0),
{
    match Offset::try_from(offset) {
        Err(e) => Err(e),
        Ok(off) => match reg {
            Register::BX(Len::Low16) => Ok(Memory::BX(off)),
            Register::BP(Len::Low16) => Ok(Memory::BP(off)),
            Register::SI(Len::Low16) => Ok(Memory::SI(off)),
            Register::DI(Len::Low16) => Ok(Memory::DI(off)),
            _ => Err(ParseError::Verify),
        },
    }
}

/// Try the base+index+offset production at `pos`.
fn memory_type1(input: &str, pos: usize) -> (r: Option<Result<(usize, Memory), ParseError>>)
    requires
        pos <= input@.len(),
    ensures
        match r {
            Some(Ok((p, m))) => {
                &&& spec_mem_type1(input@, pos as int) == Some(
                    Ok::<(int, Memory), ParseError>((p as int, m)),
                )
                &&& pos <= p <= input@.len()
            },
            Some(Err(e)) => spec_mem_type1(input@, pos as int) == Some(
                Err::<(int, Memory), ParseError>(e),
            ),
            None => spec_mem_type1(input@, pos as int) is None,
        },
{
    let (p1, r1) = match register_value(input, pos) {
        Ok(x) => x,
        Err(_) => {
            return None;
        },
    };
    let pp = match eat_tag(input, p1, "+") {
        Some(x) => x,
        None => {
            return None;
        },
    };
    let (p2, r2) = match register_value(input, pp) {
        Ok(x) => x,
        Err(_) => {
            return None;
        },
    };
    let pq = match eat_tag(input, p2, "+") {
        Some(x) => x,
        None => {
            return None;
        },
    };
    let (p3, v) = match immediate_value(input, pq) {
        Ok(x) => x,
        Err(_) => {
            return None;
        },
    };
    match memory_from_type1(r1, r2, Immediate(v)) {
        Ok(m) => Some(Ok((p3, m))),
        Err(e) => Some(Err(e)),
    }
}

/// Try the base+offset production at `pos`.
fn memory_type2(input: &str, pos: usize) -> (r: Option<Result<(usize, Memory), ParseError>>)
    requires
        pos <= input@.len(),
    ensures
        match r {
            Some(Ok((p, m))) => {
                &&& spec_mem_type2(input@, pos as int) == Some(
                    Ok::<(int, Memory), ParseError>((p as int, m)),
                )
                &&& pos <= p <= input@.len()
            },
            Some(Err(e)) => spec_mem_type2(input@, pos as int) == Some(
                Err::<(int, Memory), ParseError>(e),
            ),
            None => spec_mem_type2(input@, pos as int) is None,
        },
{
    let (p1, r1) = match register_value(input, pos) {
        Ok(x) => x,
        Err(_) => {
            return None;
        },
    };
    let pp = match eat_tag(input, p1, "+") {
        Some(x) => x,
        None => {
            return None;
        },
    };
    let (p2, v) = match immediate_value(input, pp) {
        Ok(x) => x,
        Err(_) => {
            return None;
        },
    };
    match memory_from_type2(r1, Immediate(v)) {
        Ok(m) => Some(Ok((p2, m))),
        Err(e) => Some(Err(e)),
    }
}

/// Try the offset-only production at `pos`.
fn memory_type3(input: &str, pos: usize) -> (r: Result<(usize, Memory), ParseError>)
    requires
        pos <= input@.len(),
    ensures
        match r {
            Ok((p, m)) => {
                &&& spec_mem_type3(input@, pos as int) == Ok::<(int, Memory), ParseError>(
                    (p as int, m),
                )
                &&& pos <= p <= input@.len()
            },
            Err(e) => spec_mem_type3(input@, pos as int) == Err::<(int, Memory), ParseError>(e),
        },
{
    match immediate_value(input, pos) {
        Err(e) => Err(e),
        Ok((p, v)) => match Offset::try_from(Immediate(v)) {
            Err(e) => Err(e),
            Ok(off) => Ok((p, Memory::Offset(off))),
        },
    }
}

/// The bracket interior: ordered backtracking over the three productions.
fn memory_inner(input: &str, pos: usize) -> (r: Result<(usize, Memory), ParseError>)
    requires
        pos <= input@.len(),
    ensures
        match r {
            Ok((p, m)) => {
                &&& spec_mem_inner(input@, pos as int) == Ok::<(int, Memory), ParseError>(
                    (p as int, m),
                )
                &&& pos <= p <= input@.len()
            },
            Err(e) => spec_mem_inner(input@, pos as int) == Err::<(int, Memory), ParseError>(e),
        },
{
    match memory_type1(input, pos) {
        Some(r) => r,
        None => match memory_type2(input, pos) {
            Some(r) => r,
            None => memory_type3(input, pos),
        },
    }
}

/// Parse a memory operand at `pos`: optional spaces, a bracketed
/// addressing expression, optional spaces. Validation failures inside a
/// structurally matched production are final.
pub fn memory(input: &str, pos: usize) -> (r: Result<(usize, Operand), ParseError>)
    requires
        pos <= input@.len(),
    ensures
        match r {
            Ok((p, op)) => {
                &&& spec_memory(input@, pos as int) matches Ok((q, m)) && q == p as int && op
                    == Operand::Memory(m)
                &&& pos <= p <= input@.len()
            },
            Err(e) => spec_memory(input@, pos as int) == Err::<(int, Memory), ParseError>(e),
        },
{
    let p0 = eat_spaces(input, pos);
    let pin = match eat_tag(input, p0, "[") {
        Some(x) => x,
        None => {
            return Err(ParseError::Tag);
        },
    };
    match memory_inner(input, pin) {
        Err(e) => Err(e),
        Ok((p1, m)) => match eat_tag(input, p1, "]") {
            Some(p2) => {
                let p3 = eat_spaces(input, p2);
                Ok((p3, Operand::Memory(m)))
            },
            None => Err(ParseError::Tag),
        },
    }
}

} // verus!
