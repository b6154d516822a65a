//! Stated and proved properties of the operand grammar.
//!
//! Three groups of laws live here. Every declared register alias, given as
//! the whole input, parses to its canonical (family, width) register and
//! consumes exactly its own text. Parsing is a pure function of the
//! unconsumed input slice: the parse at a position equals the parse of the
//! suffix starting there, with every position shifted back, so re-parsing
//! the remainder of a successful parse can never see, or re-match, anything
//! already consumed. And every memory operand the grammar can produce holds
//! its displacement in the minimal sufficient width.

use vstd::prelude::*;
use crate::error::ParseError;
use crate::memory::Memory;
use crate::memory::memory_wf;
use crate::memory::offset_minimal;
use crate::memory::spec_offset;
use crate::parser::digit_ok;
use crate::parser::digit_run_end;
use crate::parser::is_space;
use crate::parser::match_at;
use crate::parser::skip_spaces;
use crate::parser::spec_any_register;
use crate::parser::spec_digits;
use crate::parser::spec_from_type1;
use crate::parser::spec_from_type2;
use crate::parser::spec_gp_register;
use crate::parser::spec_immediate;
use crate::parser::spec_mem_inner;
use crate::parser::spec_mem_type1;
use crate::parser::spec_mem_type2;
use crate::parser::spec_mem_type3;
use crate::parser::spec_memory;
use crate::parser::spec_radix_digits;
use crate::parser::spec_register;
use crate::parser::spec_seg_register;
use crate::register::Len;
use crate::register::Register;
use crate::register::ax_table;
use crate::register::bp_table;
use crate::register::bx_table;
use crate::register::cx_table;
use crate::register::di_table;
use crate::register::dx_table;
use crate::register::si_table;
use crate::register::sp_table;
use crate::register::spec_scan;

verus! {

/// A parse result with its end position moved right by `k`.
pub open spec fn shift_res<T>(r: Result<(int, T), ParseError>, k: int) -> Result<
    (int, T),
    ParseError,
> {
    match r {
        Ok((p, x)) => Ok((p + k, x)),
        Err(e) => Err(e),
    }
}

/// A recognizer result with its end position moved right by `k`.
pub open spec fn shift_opt<T>(r: Option<(int, T)>, k: int) -> Option<(int, T)> {
    match r {
        Some((p, x)) => Some((p + k, x)),
        None => None,
    }
}

/// A production result with its end position moved right by `k`.
pub open spec fn shift_prod(r: Option<Result<(int, Memory), ParseError>>, k: int) -> Option<
    Result<(int, Memory), ParseError>,
> {
    match r {
        Some(inner) => Some(shift_res(inner, k)),
        None => None,
    }
}

proof fn lemma_skip_spaces_shift(s: Seq<char>, k: int, pos: int)
    requires
        0 <= k <= s.len(),
        0 <= pos <= s.len() - k,
    ensures
        skip_spaces(s, k + pos) == k + skip_spaces(s.skip(k), pos),
    decreases s.len() - k - pos,
{
    let t = s.skip(k);
    if k + pos < s.len() {
        assert(t[pos] == s[k + pos]);
        if is_space(s[k + pos]) {
            lemma_skip_spaces_shift(s, k, pos + 1);
        }
    }
}

proof fn lemma_match_at_shift(s: Seq<char>, k: int, pos: int, lit: Seq<char>)
    requires
        0 <= k <= s.len(),
        0 <= pos,
    ensures
        match_at(s, k + pos, lit) == match_at(s.skip(k), pos, lit),
    decreases lit.len(),
{
    let t = s.skip(k);
    if lit.len() > 0 && pos + lit.len() <= t.len() {
        assert(t[pos] == s[k + pos]);
        lemma_match_at_shift(s, k, pos + 1, lit.drop_first());
    }
}

proof fn lemma_scan_shift(s: Seq<char>, k: int, pos: int, table: Seq<(Seq<char>, Len)>)
    requires
        0 <= k <= s.len(),
        0 <= pos,
    ensures
        spec_scan(s, k + pos, table) == shift_opt(spec_scan(s.skip(k), pos, table), k),
    decreases table.len(),
{
    if table.len() > 0 {
        lemma_match_at_shift(s, k, pos, table[0].0);
        lemma_scan_shift(s, k, pos, table.drop_first());
    }
}

/// A scan that succeeds ends inside the input.
proof fn lemma_scan_ok_bounds(s: Seq<char>, pos: int, table: Seq<(Seq<char>, Len)>)
    requires
        0 <= pos,
    ensures
        spec_scan(s, pos, table) matches Some((p, _)) ==> pos <= p <= s.len(),
    decreases table.len(),
{
    if table.len() > 0 {
        lemma_scan_ok_bounds(s, pos, table.drop_first());
    }
}

proof fn lemma_gp_register_shift(s: Seq<char>, k: int, pos: int)
    requires
        0 <= k <= s.len(),
        0 <= pos,
    ensures
        spec_gp_register(s, k + pos) == shift_opt(spec_gp_register(s.skip(k), pos), k),
{
    lemma_scan_shift(s, k, pos, ax_table());
    lemma_scan_shift(s, k, pos, cx_table());
    lemma_scan_shift(s, k, pos, dx_table());
    lemma_scan_shift(s, k, pos, bx_table());
    lemma_scan_shift(s, k, pos, sp_table());
    lemma_scan_shift(s, k, pos, bp_table());
    lemma_scan_shift(s, k, pos, si_table());
    lemma_scan_shift(s, k, pos, di_table());
}

proof fn lemma_gp_register_ok_bounds(s: Seq<char>, pos: int)
    requires
        0 <= pos,
    ensures
        spec_gp_register(s, pos) matches Some((p, _)) ==> pos <= p <= s.len(),
{
    lemma_scan_ok_bounds(s, pos, ax_table());
    lemma_scan_ok_bounds(s, pos, cx_table());
    lemma_scan_ok_bounds(s, pos, dx_table());
    lemma_scan_ok_bounds(s, pos, bx_table());
    lemma_scan_ok_bounds(s, pos, sp_table());
    lemma_scan_ok_bounds(s, pos, bp_table());
    lemma_scan_ok_bounds(s, pos, si_table());
    lemma_scan_ok_bounds(s, pos, di_table());
}

proof fn lemma_seg_register_shift(s: Seq<char>, k: int, pos: int)
    requires
        0 <= k <= s.len(),
        0 <= pos,
    ensures
        spec_seg_register(s, k + pos) == shift_opt(spec_seg_register(s.skip(k), pos), k),
{
    lemma_match_at_shift(s, k, pos, "ss"@);
    lemma_match_at_shift(s, k, pos, "cs"@);
    lemma_match_at_shift(s, k, pos, "ds"@);
    lemma_match_at_shift(s, k, pos, "es"@);
    lemma_match_at_shift(s, k, pos, "gs"@);
    lemma_match_at_shift(s, k, pos, "fs"@);
}

proof fn lemma_any_register_shift(s: Seq<char>, k: int, pos: int)
    requires
        0 <= k <= s.len(),
        0 <= pos,
    ensures
        spec_any_register(s, k + pos) == shift_opt(spec_any_register(s.skip(k), pos), k),
{
    lemma_gp_register_shift(s, k, pos);
    lemma_seg_register_shift(s, k, pos);
}

/// A successful register recognition ends inside the input.
proof fn lemma_any_register_ok_bounds(s: Seq<char>, pos: int)
    requires
        0 <= pos,
    ensures
        spec_any_register(s, pos) matches Some((p, _)) ==> pos <= p <= s.len(),
{
    lemma_gp_register_ok_bounds(s, pos);
}

/// The register production looks only at the input from `pos` on.
pub proof fn lemma_register_parses_suffix(s: Seq<char>, pos: int)
    requires
        0 <= pos <= s.len(),
    ensures
        spec_register(s, pos) == shift_res(spec_register(s.skip(pos), 0), pos),
{
    let t = s.skip(pos);
    lemma_skip_spaces_shift(s, pos, 0);
    let q1 = skip_spaces(t, 0);
    crate::parser::lemma_skip_spaces_bounds(t, 0);
    lemma_any_register_shift(s, pos, q1);
    lemma_any_register_ok_bounds(t, q1);
    if let Some((q2, reg)) = spec_any_register(t, q1) {
        lemma_skip_spaces_shift(s, pos, q2);
    }
}

/// Every declared alias of the AX family, given as the whole input, parses
/// to the AX register with the alias's declared width and consumes exactly
/// the alias text, leaving no remainder.
pub proof fn lemma_ax_aliases_parse()
    ensures
        forall|i: int| 0 <= i < ax_table().len() ==> #[trigger] spec_register(
            ax_table()[i].0,
            0,
        ) == Ok::<(int, Register), ParseError>(
            (ax_table()[i].0.len() as int, Register::AX(ax_table()[i].1)),
        ),
{
    reveal_with_fuel(match_at, 5);
    reveal_with_fuel(spec_scan, 7);
    reveal_with_fuel(skip_spaces, 2);
    reveal_strlit("rax");
    reveal_strlit("eax");
    reveal_strlit("ax");
    reveal_strlit("ah");
    reveal_strlit("al");
    assert forall|i: int| 0 <= i < ax_table().len() implies #[trigger] spec_register(
        ax_table()[i].0,
        0,
    ) == Ok::<(int, Register), ParseError>(
        (ax_table()[i].0.len() as int, Register::AX(ax_table()[i].1)),
    ) by {
        reveal_with_fuel(match_at, 5);
        reveal_with_fuel(spec_scan, 7);
        reveal_with_fuel(skip_spaces, 2);
        if i == 0 {
            assert(spec_register("rax"@, 0) == Ok::<(int, Register), ParseError>(
                (3, Register::AX(Len::Full)),
            ));
        } else if i == 1 {
            assert(spec_register("eax"@, 0) == Ok::<(int, Register), ParseError>(
                (3, Register::AX(Len::Low32)),
            ));
        } else if i == 2 {
            assert(spec_register("ax"@, 0) == Ok::<(int, Register), ParseError>(
                (2, Register::AX(Len::Low16)),
            ));
        } else if i == 3 {
            assert(spec_register("ah"@, 0) == Ok::<(int, Register), ParseError>(
                (2, Register::AX(Len::High8)),
            ));
        } else {
            assert(spec_register("al"@, 0) == Ok::<(int, Register), ParseError>(
                (2, Register::AX(Len::Low8)),
            ));
        }
    }
}


/// Every declared alias of the CX family, given as the whole input, parses
/// to the CX register with the alias's declared width and consumes exactly
/// the alias text, leaving no remainder.
#[verifier::rlimit(50)]
pub proof fn lemma_cx_aliases_parse()
    ensures
        forall|i: int| 0 <= i < cx_table().len() ==> #[trigger] spec_register(
            cx_table()[i].0,
            0,
        ) == Ok::<(int, Register), ParseError>(
            (cx_table()[i].0.len() as int, Register::CX(cx_table()[i].1)),
        ),
{
    reveal_with_fuel(match_at, 5);
    reveal_with_fuel(spec_scan, 7);
    reveal_with_fuel(skip_spaces, 2);
    reveal_strlit("rax");
    reveal_strlit("eax");
    reveal_strlit("ax");
    reveal_strlit("ah");
    reveal_strlit("al");
    reveal_strlit("rcx");
    reveal_strlit("ecx");
    reveal_strlit("cx");
    reveal_strlit("ch");
    reveal_strlit("cl");
    assert forall|i: int| 0 <= i < cx_table().len() implies #[trigger] spec_register(
        cx_table()[i].0,
        0,
    ) == Ok::<(int, Register), ParseError>(
        (cx_table()[i].0.len() as int, Register::CX(cx_table()[i].1)),
    ) by {
        reveal_with_fuel(match_at, 5);
        reveal_with_fuel(spec_scan, 7);
        reveal_with_fuel(skip_spaces, 2);
        if i == 0 {
            assert(spec_register("rcx"@, 0) == Ok::<(int, Register), ParseError>(
                (3, Register::CX(Len::Full)),
            ));
        } else if i == 1 {
            assert(spec_register("ecx"@, 0) == Ok::<(int, Register), ParseError>(
                (3, Register::CX(Len::Low32)),
            ));
        } else if i == 2 {
            assert(spec_register("cx"@, 0) == Ok::<(int, Register), ParseError>(
                (2, Register::CX(Len::Low16)),
            ));
        } else if i == 3 {
            assert(spec_register("ch"@, 0) == Ok::<(int, Register), ParseError>(
                (2, Register::CX(Len::High8)),
            ));
        } else {
            assert(spec_register("cl"@, 0) == Ok::<(int, Register), ParseError>(
                (2, Register::CX(Len::Low8)),
            ));
        }
    }
}

/// Every declared alias of the DX family, given as the whole input, parses
/// to the DX register with the alias's declared width and consumes exactly
/// the alias text, leaving no remainder.
#[verifier::rlimit(50)]
pub proof fn lemma_dx_aliases_parse()
    ensures
        forall|i: int| 0 <= i < dx_table().len() ==> #[trigger] spec_register(
            dx_table()[i].0,
            0,
        ) == Ok::<(int, Register), ParseError>(
            (dx_table()[i].0.len() as int, Register::DX(dx_table()[i].1)),
        ),
{
    reveal_with_fuel(match_at, 5);
    reveal_with_fuel(spec_scan, 7);
    reveal_with_fuel(skip_spaces, 2);
    reveal_strlit("rax");
    reveal_strlit("eax");
    reveal_strlit("ax");
    reveal_strlit("ah");
    reveal_strlit("al");
    reveal_strlit("rcx");
    reveal_strlit("ecx");
    reveal_strlit("cx");
    reveal_strlit("ch");
    reveal_strlit("cl");
    reveal_strlit("rdx");
    reveal_strlit("edx");
    reveal_strlit("dx");
    reveal_strlit("dh");
    reveal_strlit("dl");
    assert forall|i: int| 0 <= i < dx_table().len() implies #[trigger] spec_register(
        dx_table()[i].0,
        0,
    ) == Ok::<(int, Register), ParseError>(
        (dx_table()[i].0.len() as int, Register::DX(dx_table()[i].1)),
    ) by {
        reveal_with_fuel(match_at, 5);
        reveal_with_fuel(spec_scan, 7);
        reveal_with_fuel(skip_spaces, 2);
        if i == 0 {
            assert(spec_register("rdx"@, 0) == Ok::<(int, Register), ParseError>(
                (3, Register::DX(Len::Full)),
            ));
        } else if i == 1 {
            assert(spec_register("edx"@, 0) == Ok::<(int, Register), ParseError>(
                (3, Register::DX(Len::Low32)),
            ));
        } else if i == 2 {
            assert(spec_register("dx"@, 0) == Ok::<(int, Register), ParseError>(
                (2, Register::DX(Len::Low16)),
            ));
        } else if i == 3 {
            assert(spec_register("dh"@, 0) == Ok::<(int, Register), ParseError>(
                (2, Register::DX(Len::High8)),
            ));
        } else {
            assert(spec_register("dl"@, 0) == Ok::<(int, Register), ParseError>(
                (2, Register::DX(Len::Low8)),
            ));
        }
    }
}

/// Every declared alias of the BX family, given as the whole input, parses
/// to the BX register with the alias's declared width and consumes exactly
/// the alias text, leaving no remainder.
#[verifier::rlimit(50)]
pub proof fn lemma_bx_aliases_parse()
    ensures
        forall|i: int| 0 <= i < bx_table().len() ==> #[trigger] spec_register(
            bx_table()[i].0,
            0,
        ) == Ok::<(int, Register), ParseError>(
            (bx_table()[i].0.len() as int, Register::BX(bx_table()[i].1)),
        ),
{
    reveal_with_fuel(match_at, 5);
    reveal_with_fuel(spec_scan, 7);
    reveal_with_fuel(skip_spaces, 2);
    reveal_strlit("rax");
    reveal_strlit("eax");
    reveal_strlit("ax");
    reveal_strlit("ah");
    reveal_strlit("al");
    reveal_strlit("rcx");
    reveal_strlit("ecx");
    reveal_strlit("cx");
    reveal_strlit("ch");
    reveal_strlit("cl");
    reveal_strlit("rdx");
    reveal_strlit("edx");
    reveal_strlit("dx");
    reveal_strlit("dh");
    reveal_strlit("dl");
    reveal_strlit("rbx");
    reveal_strlit("ebx");
    reveal_strlit("bx");
    reveal_strlit("bh");
    reveal_strlit("bl");
    assert forall|i: int| 0 <= i < bx_table().len() implies #[trigger] spec_register(
        bx_table()[i].0,
        0,
    ) == Ok::<(int, Register), ParseError>(
        (bx_table()[i].0.len() as int, Register::BX(bx_table()[i].1)),
    ) by {
        reveal_with_fuel(match_at, 5);
        reveal_with_fuel(spec_scan, 7);
        reveal_with_fuel(skip_spaces, 2);
        if i == 0 {
            assert(spec_register("rbx"@, 0) == Ok::<(int, Register), ParseError>(
                (3, Register::BX(Len::Full)),
            ));
        } else if i == 1 {
            assert(spec_register("ebx"@, 0) == Ok::<(int, Register), ParseError>(
                (3, Register::BX(Len::Low32)),
            ));
        } else if i == 2 {
            assert(spec_register("bx"@, 0) == Ok::<(int, Register), ParseError>(
                (2, Register::BX(Len::Low16)),
            ));
        } else if i == 3 {
            assert(spec_register("bh"@, 0) == Ok::<(int, Register), ParseError>(
                (2, Register::BX(Len::High8)),
            ));
        } else {
            assert(spec_register("bl"@, 0) == Ok::<(int, Register), ParseError>(
                (2, Register::BX(Len::Low8)),
            ));
        }
    }
}

/// Every declared alias of the SP family, given as the whole input, parses
/// to the SP register with the alias's declared width and consumes exactly
/// the alias text, leaving no remainder.
#[verifier::rlimit(50)]
pub proof fn lemma_sp_aliases_parse()
    ensures
        forall|i: int| 0 <= i < sp_table().len() ==> #[trigger] spec_register(
            sp_table()[i].0,
            0,
        ) == Ok::<(int, Register), ParseError>(
            (sp_table()[i].0.len() as int, Register::SP(sp_table()[i].1)),
        ),
{
    reveal_with_fuel(match_at, 5);
    reveal_with_fuel(spec_scan, 7);
    reveal_with_fuel(skip_spaces, 2);
    reveal_strlit("rax");
    reveal_strlit("eax");
    reveal_strlit("ax");
    reveal_strlit("ah");
    reveal_strlit("al");
    reveal_strlit("rcx");
    reveal_strlit("ecx");
    reveal_strlit("cx");
    reveal_strlit("ch");
    reveal_strlit("cl");
    reveal_strlit("rdx");
    reveal_strlit("edx");
    reveal_strlit("dx");
    reveal_strlit("dh");
    reveal_strlit("dl");
    reveal_strlit("rbx");
    reveal_strlit("ebx");
    reveal_strlit("bx");
    reveal_strlit("bh");
    reveal_strlit("bl");
    reveal_strlit("rsp");
    reveal_strlit("esp");
    reveal_strlit("sp");
    assert forall|i: int| 0 <= i < sp_table().len() implies #[trigger] spec_register(
        sp_table()[i].0,
        0,
    ) == Ok::<(int, Register), ParseError>(
        (sp_table()[i].0.len() as int, Register::SP(sp_table()[i].1)),
    ) by {
        reveal_with_fuel(match_at, 5);
        reveal_with_fuel(spec_scan, 7);
        reveal_with_fuel(skip_spaces, 2);
        if i == 0 {
            assert(spec_register("rsp"@, 0) == Ok::<(int, Register), ParseError>(
                (3, Register::SP(Len::Full)),
            ));
        } else if i == 1 {
            assert(spec_register("esp"@, 0) == Ok::<(int, Register), ParseError>(
                (3, Register::SP(Len::Low32)),
            ));
        } else {
            assert(spec_register("sp"@, 0) == Ok::<(int, Register), ParseError>(
                (2, Register::SP(Len::Low16)),
            ));
        }
    }
}

/// Every declared alias of the BP family, given as the whole input, parses
/// to the BP register with the alias's declared width and consumes exactly
/// the alias text, leaving no remainder.
#[verifier::rlimit(80)]
pub proof fn lemma_bp_aliases_parse()
    ensures
        forall|i: int| 0 <= i < bp_table().len() ==> #[trigger] spec_register(
            bp_table()[i].0,
            0,
        ) == Ok::<(int, Register), ParseError>(
            (bp_table()[i].0.len() as int, Register::BP(bp_table()[i].1)),
        ),
{
    reveal_with_fuel(match_at, 5);
    reveal_with_fuel(spec_scan, 7);
    reveal_with_fuel(skip_spaces, 2);
    reveal_strlit("rax");
    reveal_strlit("eax");
    reveal_strlit("ax");
    reveal_strlit("ah");
    reveal_strlit("al");
    reveal_strlit("rcx");
    reveal_strlit("ecx");
    reveal_strlit("cx");
    reveal_strlit("ch");
    reveal_strlit("cl");
    reveal_strlit("rdx");
    reveal_strlit("edx");
    reveal_strlit("dx");
    reveal_strlit("dh");
    reveal_strlit("dl");
    reveal_strlit("rbx");
    reveal_strlit("ebx");
    reveal_strlit("bx");
    reveal_strlit("bh");
    reveal_strlit("bl");
    reveal_strlit("rsp");
    reveal_strlit("esp");
    reveal_strlit("sp");
    reveal_strlit("rbp");
    reveal_strlit("ebp");
    reveal_strlit("bp");
    assert forall|i: int| 0 <= i < bp_table().len() implies #[trigger] spec_register(
        bp_table()[i].0,
        0,
    ) == Ok::<(int, Register), ParseError>(
        (bp_table()[i].0.len() as int, Register::BP(bp_table()[i].1)),
    ) by {
        reveal_with_fuel(match_at, 5);
        reveal_with_fuel(spec_scan, 7);
        reveal_with_fuel(skip_spaces, 2);
        if i == 0 {
            assert(spec_register("rbp"@, 0) == Ok::<(int, Register), ParseError>(
                (3, Register::BP(Len::Full)),
            ));
        } else if i == 1 {
            assert(spec_register("ebp"@, 0) == Ok::<(int, Register), ParseError>(
                (3, Register::BP(Len::Low32)),
            ));
        } else {
            assert(spec_register("bp"@, 0) == Ok::<(int, Register), ParseError>(
                (2, Register::BP(Len::Low16)),
            ));
        }
    }
}

/// Every declared alias of the SI family, given as the whole input, parses
/// to the SI register with the alias's declared width and consumes exactly
/// the alias text, leaving no remainder.
#[verifier::rlimit(80)]
pub proof fn lemma_si_aliases_parse()
    ensures
        forall|i: int| 0 <= i < si_table().len() ==> #[trigger] spec_register(
            si_table()[i].0,
            0,
        ) == Ok::<(int, Register), ParseError>(
            (si_table()[i].0.len() as int, Register::SI(si_table()[i].1)),
        ),
{
    reveal_with_fuel(match_at, 5);
    reveal_with_fuel(spec_scan, 7);
    reveal_with_fuel(skip_spaces, 2);
    reveal_strlit("rax");
    reveal_strlit("eax");
    reveal_strlit("ax");
    reveal_strlit("ah");
    reveal_strlit("al");
    reveal_strlit("rcx");
    reveal_strlit("ecx");
    reveal_strlit("cx");
    reveal_strlit("ch");
    reveal_strlit("cl");
    reveal_strlit("rdx");
    reveal_strlit("edx");
    reveal_strlit("dx");
    reveal_strlit("dh");
    reveal_strlit("dl");
    reveal_strlit("rbx");
    reveal_strlit("ebx");
    reveal_strlit("bx");
    reveal_strlit("bh");
    reveal_strlit("bl");
    reveal_strlit("rsp");
    reveal_strlit("esp");
    reveal_strlit("sp");
    reveal_strlit("rbp");
    reveal_strlit("ebp");
    reveal_strlit("bp");
    reveal_strlit("rsi");
    reveal_strlit("esi");
    reveal_strlit("si");
    assert forall|i: int| 0 <= i < si_table().len() implies #[trigger] spec_register(
        si_table()[i].0,
        0,
    ) == Ok::<(int, Register), ParseError>(
        (si_table()[i].0.len() as int, Register::SI(si_table()[i].1)),
    ) by {
        reveal_with_fuel(match_at, 5);
        reveal_with_fuel(spec_scan, 7);
        reveal_with_fuel(skip_spaces, 2);
        if i == 0 {
            assert(spec_register("rsi"@, 0) == Ok::<(int, Register), ParseError>(
                (3, Register::SI(Len::Full)),
            ));
        } else if i == 1 {
            assert(spec_register("esi"@, 0) == Ok::<(int, Register), ParseError>(
                (3, Register::SI(Len::Low32)),
            ));
        } else {
            assert(spec_register("si"@, 0) == Ok::<(int, Register), ParseError>(
                (2, Register::SI(Len::Low16)),
            ));
        }
    }
}

/// Every declared alias of the DI family, given as the whole input, parses
/// to the DI register with the alias's declared width and consumes exactly
/// the alias text, leaving no remainder.
#[verifier::rlimit(100)]
pub proof fn lemma_di_aliases_parse()
    ensures
        forall|i: int| 0 <= i < di_table().len() ==> #[trigger] spec_register(
            di_table()[i].0,
            0,
        ) == Ok::<(int, Register), ParseError>(
            (di_table()[i].0.len() as int, Register::DI(di_table()[i].1)),
        ),
{
    reveal_with_fuel(match_at, 5);
    reveal_with_fuel(spec_scan, 7);
    reveal_with_fuel(skip_spaces, 2);
    reveal_strlit("rax");
    reveal_strlit("eax");
    reveal_strlit("ax");
    reveal_strlit("ah");
    reveal_strlit("al");
    reveal_strlit("rcx");
    reveal_strlit("ecx");
    reveal_strlit("cx");
    reveal_strlit("ch");
    reveal_strlit("cl");
    reveal_strlit("rdx");
    reveal_strlit("edx");
    reveal_strlit("dx");
    reveal_strlit("dh");
    reveal_strlit("dl");
    reveal_strlit("rbx");
    reveal_strlit("ebx");
    reveal_strlit("bx");
    reveal_strlit("bh");
    reveal_strlit("bl");
    reveal_strlit("rsp");
    reveal_strlit("esp");
    reveal_strlit("sp");
    reveal_strlit("rbp");
    reveal_strlit("ebp");
    reveal_strlit("bp");
    reveal_strlit("rsi");
    reveal_strlit("esi");
    reveal_strlit("si");
    reveal_strlit("rdi");
    reveal_strlit("edi");
    reveal_strlit("di");
    assert forall|i: int| 0 <= i < di_table().len() implies #[trigger] spec_register(
        di_table()[i].0,
        0,
    ) == Ok::<(int, Register), ParseError>(
        (di_table()[i].0.len() as int, Register::DI(di_table()[i].1)),
    ) by {
        reveal_with_fuel(match_at, 5);
        reveal_with_fuel(spec_scan, 7);
        reveal_with_fuel(skip_spaces, 2);
        if i == 0 {
            assert(spec_register("rdi"@, 0) == Ok::<(int, Register), ParseError>(
                (3, Register::DI(Len::Full)),
            ));
        } else if i == 1 {
            assert(spec_register("edi"@, 0) == Ok::<(int, Register), ParseError>(
                (3, Register::DI(Len::Low32)),
            ));
        } else {
            assert(spec_register("di"@, 0) == Ok::<(int, Register), ParseError>(
                (2, Register::DI(Len::Low16)),
            ));
        }
    }
}

/// Each of the six segment-register literals, given as the whole input,
/// parses to its segment register and consumes exactly its two characters.
#[verifier::rlimit(100)]
pub proof fn lemma_segment_aliases_parse()
    ensures
        spec_register("ss"@, 0) == Ok::<(int, Register), ParseError>((2, Register::SS)),
        spec_register("cs"@, 0) == Ok::<(int, Register), ParseError>((2, Register::CS)),
        spec_register("ds"@, 0) == Ok::<(int, Register), ParseError>((2, Register::DS)),
        spec_register("es"@, 0) == Ok::<(int, Register), ParseError>((2, Register::ES)),
        spec_register("gs"@, 0) == Ok::<(int, Register), ParseError>((2, Register::GS)),
        spec_register("fs"@, 0) == Ok::<(int, Register), ParseError>((2, Register::FS)),
{
    reveal_with_fuel(match_at, 5);
    reveal_with_fuel(spec_scan, 7);
    reveal_with_fuel(skip_spaces, 2);
    reveal_strlit("rax");
    reveal_strlit("eax");
    reveal_strlit("ax");
    reveal_strlit("ah");
    reveal_strlit("al");
    reveal_strlit("rcx");
    reveal_strlit("ecx");
    reveal_strlit("cx");
    reveal_strlit("ch");
    reveal_strlit("cl");
    reveal_strlit("rdx");
    reveal_strlit("edx");
    reveal_strlit("dx");
    reveal_strlit("dh");
    reveal_strlit("dl");
    reveal_strlit("rbx");
    reveal_strlit("ebx");
    reveal_strlit("bx");
    reveal_strlit("bh");
    reveal_strlit("bl");
    reveal_strlit("rsp");
    reveal_strlit("esp");
    reveal_strlit("sp");
    reveal_strlit("rbp");
    reveal_strlit("ebp");
    reveal_strlit("bp");
    reveal_strlit("rsi");
    reveal_strlit("esi");
    reveal_strlit("si");
    reveal_strlit("rdi");
    reveal_strlit("edi");
    reveal_strlit("di");
    reveal_strlit("ss");
    reveal_strlit("cs");
    reveal_strlit("ds");
    reveal_strlit("es");
    reveal_strlit("gs");
    reveal_strlit("fs");
    assert(spec_register("ss"@, 0) == Ok::<(int, Register), ParseError>(
        (2, Register::SS),
    ));
    assert(spec_register("cs"@, 0) == Ok::<(int, Register), ParseError>(
        (2, Register::CS),
    ));
    assert(spec_register("ds"@, 0) == Ok::<(int, Register), ParseError>(
        (2, Register::DS),
    ));
    assert(spec_register("es"@, 0) == Ok::<(int, Register), ParseError>(
        (2, Register::ES),
    ));
    assert(spec_register("gs"@, 0) == Ok::<(int, Register), ParseError>(
        (2, Register::GS),
    ));
    assert(spec_register("fs"@, 0) == Ok::<(int, Register), ParseError>(
        (2, Register::FS),
    ));
}

proof fn lemma_digit_run_end_shift(s: Seq<char>, k: int, pos: int, radix: nat)
    requires
        0 <= k <= s.len(),
        0 <= pos <= s.len() - k,
    ensures
        digit_run_end(s, k + pos, radix) == k + digit_run_end(s.skip(k), pos, radix),
    decreases s.len() - k - pos,
{
    let t = s.skip(k);
    if k + pos < s.len() {
        assert(t[pos] == s[k + pos]);
        if digit_ok(s[k + pos], radix) {
            lemma_digit_run_end_shift(s, k, pos + 1, radix);
        }
    }
}

proof fn lemma_radix_digits_shift(s: Seq<char>, k: int, pos: int, radix: nat)
    requires
        0 <= k <= s.len(),
        0 <= pos <= s.len() - k,
    ensures
        spec_radix_digits(s, k + pos, radix) == shift_res(
            spec_radix_digits(s.skip(k), pos, radix),
            k,
        ),
{
    let t = s.skip(k);
    lemma_digit_run_end_shift(s, k, pos, radix);
    let end = digit_run_end(t, pos, radix);
    crate::parser::lemma_digit_run_end_bounds(t, pos, radix);
    assert(s.subrange(k + pos, k + end) =~= t.subrange(pos, end));
}

proof fn lemma_digits_shift(s: Seq<char>, k: int, pos: int)
    requires
        0 <= k <= s.len(),
        0 <= pos <= s.len() - k,
    ensures
        spec_digits(s, k + pos) == shift_res(spec_digits(s.skip(k), pos), k),
{
    lemma_match_at_shift(s, k, pos, "0b"@);
    lemma_match_at_shift(s, k, pos, "0x"@);
    if match_at(s, k + pos, "0b"@) {
        lemma_radix_digits_shift(s, k, pos + "0b"@.len(), 2);
    } else if match_at(s, k + pos, "0x"@) {
        lemma_radix_digits_shift(s, k, pos + "0x"@.len(), 16);
    } else {
        lemma_radix_digits_shift(s, k, pos, 10);
    }
}

/// A successful digit literal ends inside the input.
proof fn lemma_digits_ok_bounds(s: Seq<char>, pos: int)
    requires
        0 <= pos <= s.len(),
    ensures
        spec_digits(s, pos) matches Ok((p, _)) ==> pos <= p <= s.len(),
{
    if match_at(s, pos, "0b"@) {
        crate::parser::lemma_digit_run_end_bounds(s, pos + "0b"@.len(), 2);
    } else if match_at(s, pos, "0x"@) {
        crate::parser::lemma_digit_run_end_bounds(s, pos + "0x"@.len(), 16);
    } else {
        crate::parser::lemma_digit_run_end_bounds(s, pos, 10);
    }
}

/// The immediate production looks only at the input from `pos` on.
pub proof fn lemma_immediate_parses_suffix(s: Seq<char>, pos: int)
    requires
        0 <= pos <= s.len(),
    ensures
        spec_immediate(s, pos) == shift_res(spec_immediate(s.skip(pos), 0), pos),
{
    let t = s.skip(pos);
    lemma_skip_spaces_shift(s, pos, 0);
    let q1 = skip_spaces(t, 0);
    crate::parser::lemma_skip_spaces_bounds(t, 0);
    lemma_digits_shift(s, pos, q1);
    lemma_digits_ok_bounds(t, q1);
    if let Ok((q2, v)) = spec_digits(t, q1) {
        lemma_skip_spaces_shift(s, pos, q2);
    }
}

/// An immediate parse at a shifted position, for any starting offset.
proof fn lemma_immediate_shift(s: Seq<char>, k: int, pos: int)
    requires
        0 <= k <= s.len(),
        0 <= pos <= s.len() - k,
    ensures
        spec_immediate(s, k + pos) == shift_res(spec_immediate(s.skip(k), pos), k),
{
    let t = s.skip(k);
    lemma_skip_spaces_shift(s, k, pos);
    let q1 = skip_spaces(t, pos);
    crate::parser::lemma_skip_spaces_bounds(t, pos);
    lemma_digits_shift(s, k, q1);
    lemma_digits_ok_bounds(t, q1);
    if let Ok((q2, v)) = spec_digits(t, q1) {
        lemma_skip_spaces_shift(s, k, q2);
    }
}

/// A register parse at a shifted position, for any starting offset.
proof fn lemma_register_shift(s: Seq<char>, k: int, pos: int)
    requires
        0 <= k <= s.len(),
        0 <= pos <= s.len() - k,
    ensures
        spec_register(s, k + pos) == shift_res(spec_register(s.skip(k), pos), k),
{
    let t = s.skip(k);
    lemma_skip_spaces_shift(s, k, pos);
    let q1 = skip_spaces(t, pos);
    crate::parser::lemma_skip_spaces_bounds(t, pos);
    lemma_any_register_shift(s, k, q1);
    lemma_any_register_ok_bounds(t, q1);
    if let Some((q2, reg)) = spec_any_register(t, q1) {
        lemma_skip_spaces_shift(s, k, q2);
    }
}

/// A successful register parse ends inside the input.
proof fn lemma_register_ok_bounds(s: Seq<char>, pos: int)
    requires
        0 <= pos <= s.len(),
    ensures
        spec_register(s, pos) matches Ok((p, _)) ==> 0 <= p <= s.len(),
{
    crate::parser::lemma_skip_spaces_bounds(s, pos);
    let q1 = skip_spaces(s, pos);
    lemma_any_register_ok_bounds(s, q1);
    if let Some((q2, reg)) = spec_any_register(s, q1) {
        crate::parser::lemma_skip_spaces_bounds(s, q2);
    }
}

/// A successful immediate parse ends inside the input.
proof fn lemma_immediate_ok_bounds(s: Seq<char>, pos: int)
    requires
        0 <= pos <= s.len(),
    ensures
        spec_immediate(s, pos) matches Ok((p, _)) ==> 0 <= p <= s.len(),
{
    crate::parser::lemma_skip_spaces_bounds(s, pos);
    let q1 = skip_spaces(s, pos);
    lemma_digits_ok_bounds(s, q1);
    if let Ok((q2, v)) = spec_digits(s, q1) {
        crate::parser::lemma_skip_spaces_bounds(s, q2);
    }
}

proof fn lemma_mem_type1_shift(s: Seq<char>, k: int, pos: int)
    requires
        0 <= k <= s.len(),
        0 <= pos <= s.len() - k,
    ensures
        spec_mem_type1(s, k + pos) == shift_prod(spec_mem_type1(s.skip(k), pos), k),
{
    let t = s.skip(k);
    lemma_register_shift(s, k, pos);
    lemma_register_ok_bounds(t, pos);
    if let Ok((p1, r1)) = spec_register(t, pos) {
        lemma_match_at_shift(s, k, p1, "+"@);
        if match_at(t, p1, "+"@) {
            lemma_register_shift(s, k, p1 + "+"@.len());
            lemma_register_ok_bounds(t, p1 + "+"@.len());
            if let Ok((p2, r2)) = spec_register(t, p1 + "+"@.len()) {
                lemma_match_at_shift(s, k, p2, "+"@);
                if match_at(t, p2, "+"@) {
                    lemma_immediate_shift(s, k, p2 + "+"@.len());
                }
            }
        }
    }
}

proof fn lemma_mem_type2_shift(s: Seq<char>, k: int, pos: int)
    requires
        0 <= k <= s.len(),
        0 <= pos <= s.len() - k,
    ensures
        spec_mem_type2(s, k + pos) == shift_prod(spec_mem_type2(s.skip(k), pos), k),
{
    let t = s.skip(k);
    lemma_register_shift(s, k, pos);
    lemma_register_ok_bounds(t, pos);
    if let Ok((p1, r1)) = spec_register(t, pos) {
        lemma_match_at_shift(s, k, p1, "+"@);
        if match_at(t, p1, "+"@) {
            lemma_immediate_shift(s, k, p1 + "+"@.len());
        }
    }
}

proof fn lemma_mem_type3_shift(s: Seq<char>, k: int, pos: int)
    requires
        0 <= k <= s.len(),
        0 <= pos <= s.len() - k,
    ensures
        spec_mem_type3(s, k + pos) == shift_res(spec_mem_type3(s.skip(k), pos), k),
{
    lemma_immediate_shift(s, k, pos);
}

proof fn lemma_mem_inner_shift(s: Seq<char>, k: int, pos: int)
    requires
        0 <= k <= s.len(),
        0 <= pos <= s.len() - k,
    ensures
        spec_mem_inner(s, k + pos) == shift_res(spec_mem_inner(s.skip(k), pos), k),
{
    lemma_mem_type1_shift(s, k, pos);
    lemma_mem_type2_shift(s, k, pos);
    lemma_mem_type3_shift(s, k, pos);
}

/// A successful bracket interior ends inside the input.
proof fn lemma_mem_inner_ok_bounds(s: Seq<char>, pos: int)
    requires
        0 <= pos <= s.len(),
    ensures
        spec_mem_inner(s, pos) matches Ok((p, _)) ==> 0 <= p <= s.len(),
{
    lemma_register_ok_bounds(s, pos);
    if let Ok((p1, r1)) = spec_register(s, pos) {
        if match_at(s, p1, "+"@) {
            let a = p1 + "+"@.len();
            lemma_register_ok_bounds(s, a);
            if let Ok((p2, r2)) = spec_register(s, a) {
                if match_at(s, p2, "+"@) {
                    lemma_immediate_ok_bounds(s, p2 + "+"@.len());
                }
            }
            lemma_immediate_ok_bounds(s, a);
        }
    }
    lemma_immediate_ok_bounds(s, pos);
}

/// Any offset that validation accepts is held in its minimal width.
proof fn lemma_offset_minimal(v: u64)
    ensures
        spec_offset(v) matches Ok(o) ==> offset_minimal(o),
{
}

/// Every memory operand the grammar can produce is well-formed: whichever
/// addressing variant it is, its displacement is stored in the minimal
/// sufficient width.
pub proof fn lemma_memory_result_wf(s: Seq<char>, pos: int)
    requires
        0 <= pos <= s.len(),
    ensures
        spec_memory(s, pos) matches Ok((p, m)) ==> memory_wf(m),
{
    let p0 = skip_spaces(s, pos);
    if match_at(s, p0, "["@) {
        let q = p0 + "["@.len();
        if let Some(r) = spec_mem_type1(s, q) {
            if let Ok((p1, r1)) = spec_register(s, q) {
                if match_at(s, p1, "+"@) {
                    if let Ok((p2, r2)) = spec_register(s, p1 + "+"@.len()) {
                        if match_at(s, p2, "+"@) {
                            if let Ok((p3, v)) = spec_immediate(s, p2 + "+"@.len()) {
                                lemma_offset_minimal(v);
                                assert(spec_from_type1(r1, r2, v) matches Ok(m) ==> memory_wf(
                                    m,
                                ));
                            }
                        }
                    }
                }
            }
        } else if let Some(r) = spec_mem_type2(s, q) {
            if let Ok((p1, r1)) = spec_register(s, q) {
                if match_at(s, p1, "+"@) {
                    if let Ok((p2, v)) = spec_immediate(s, p1 + "+"@.len()) {
                        lemma_offset_minimal(v);
                        assert(spec_from_type2(r1, v) matches Ok(m) ==> memory_wf(m));
                    }
                }
            }
        } else {
            if let Ok((p1, v)) = spec_immediate(s, q) {
                lemma_offset_minimal(v);
            }
        }
    }
}

/// The memory production looks only at the input from `pos` on.
pub proof fn lemma_memory_parses_suffix(s: Seq<char>, pos: int)
    requires
        0 <= pos <= s.len(),
    ensures
        spec_memory(s, pos) == shift_res(spec_memory(s.skip(pos), 0), pos),
{
    let t = s.skip(pos);
    lemma_skip_spaces_shift(s, pos, 0);
    let q0 = skip_spaces(t, 0);
    crate::parser::lemma_skip_spaces_bounds(t, 0);
    lemma_match_at_shift(s, pos, q0, "["@);
    if match_at(t, q0, "["@) {
        lemma_mem_inner_shift(s, pos, q0 + "["@.len());
        lemma_mem_inner_ok_bounds(t, q0 + "["@.len());
        if let Ok((q1, m)) = spec_mem_inner(t, q0 + "["@.len()) {
            lemma_match_at_shift(s, pos, q1, "]"@);
            if match_at(t, q1, "]"@) {
                lemma_skip_spaces_shift(s, pos, q1 + "]"@.len());
            }
        }
    }
}

} // verus!
