//! Register identities and widths, the per-family alias tables, and the
//! generic first-match alias scanner.

use vstd::prelude::*;
use vstd::string::StrSliceExecFns;
use crate::parser::match_at;
use crate::parser::eat_lit;

verus! {

/// One of the eight general-purpose register families, each carrying the
/// width it was named with, or one of the six segment registers, which
/// carry no width. A value is one specific (family, width) pair or one
/// specific segment identity, immutable once constructed.
#[derive(Clone, Copy, Debug, PartialEq, Eq, Structural)]
pub enum Register {
    AX(Len),
    CX(Len),
    DX(Len),
    BX(Len),
    SP(Len),
    BP(Len),
    SI(Len),
    DI(Len),
    CS,
    SS,
    DS,
    ES,
    FS,
    GS,
}

/// The bit-size view of a register value.
#[derive(Clone, Copy, Debug, PartialEq, Eq, Structural)]
pub enum Len {
    Low8,
    High8,
    Low16,
    Low32,
    Full,
}

/// The alias table of one family, as the contracts see it: alias texts in
/// the order they are tried, widest first, each with its declared width.
pub open spec fn ax_table() -> Seq<(Seq<char>, Len)> {
    seq![
        ("rax"@, Len::Full),
        ("eax"@, Len::Low32),
        ("ax"@, Len::Low16),
        ("ah"@, Len::High8),
        ("al"@, Len::Low8),
    ]
}

pub open spec fn cx_table() -> Seq<(Seq<char>, Len)> {
    seq![
        ("rcx"@, Len::Full),
        ("ecx"@, Len::Low32),
        ("cx"@, Len::Low16),
        ("ch"@, Len::High8),
        ("cl"@, Len::Low8),
    ]
}

pub open spec fn dx_table() -> Seq<(Seq<char>, Len)> {
    seq![
        ("rdx"@, Len::Full),
        ("edx"@, Len::Low32),
        ("dx"@, Len::Low16),
        ("dh"@, Len::High8),
        ("dl"@, Len::Low8),
    ]
}

pub open spec fn bx_table() -> Seq<(Seq<char>, Len)> {
    seq![
        ("rbx"@, Len::Full),
        ("ebx"@, Len::Low32),
        ("bx"@, Len::Low16),
        ("bh"@, Len::High8),
        ("bl"@, Len::Low8),
    ]
}

pub open spec fn sp_table() -> Seq<(Seq<char>, Len)> {
    seq![("rsp"@, Len::Full), ("esp"@, Len::Low32), ("sp"@, Len::Low16)]
}

pub open spec fn bp_table() -> Seq<(Seq<char>, Len)> {
    seq![("rbp"@, Len::Full), ("ebp"@, Len::Low32), ("bp"@, Len::Low16)]
}

pub open spec fn si_table() -> Seq<(Seq<char>, Len)> {
    seq![("rsi"@, Len::Full), ("esi"@, Len::Low32), ("si"@, Len::Low16)]
}

pub open spec fn di_table() -> Seq<(Seq<char>, Len)> {
    seq![("rdi"@, Len::Full), ("edi"@, Len::Low32), ("di"@, Len::Low16)]
}

/// The scan of one alias table: the first alias in table order that occurs
/// at `pos` wins, and exactly its length is consumed.
pub open spec fn spec_scan(s: Seq<char>, pos: int, table: Seq<(Seq<char>, Len)>) -> Option<
    (int, Len),
>
    decreases table.len(),
{
    if table.len() == 0 {
        None
    } else if match_at(s, pos, table[0].0) {
        Some((pos + table[0].0.len(), table[0].1))
    } else {
        spec_scan(s, pos, table.drop_first())
    }
}

/// An executable alias table seen as its contract-level counterpart.
pub open spec fn table_view(t: Seq<(&'static str, Len)>) -> Seq<(Seq<char>, Len)> {
    Seq::new(t.len(), |i: int| (t[i].0@, t[i].1))
}

pub fn ax_aliases() -> (r: Vec<(&'static str, Len)>)
    ensures
        table_view(r@) == ax_table(),
{
    let mut v: Vec<(&'static str, Len)> = Vec::new();
    v.push(("rax", Len::Full));
    v.push(("eax", Len::Low32));
    v.push(("ax", Len::Low16));
    v.push(("ah", Len::High8));
    v.push(("al", Len::Low8));
    proof {
        assert(table_view(v@) =~= ax_table());
    }
    v
}

pub fn cx_aliases() -> (r: Vec<(&'static str, Len)>)
    ensures
        table_view(r@) == cx_table(),
{
    let mut v: Vec<(&'static str, Len)> = Vec::new();
    v.push(("rcx", Len::Full));
    v.push(("ecx", Len::Low32));
    v.push(("cx", Len::Low16));
    v.push(("ch", Len::High8));
    v.push(("cl", Len::Low8));
    proof {
        assert(table_view(v@) =~= cx_table());
    }
    v
}

pub fn dx_aliases() -> (r: Vec<(&'static str, Len)>)
    ensures
        table_view(r@) == dx_table(),
{
    let mut v: Vec<(&'static str, Len)> = Vec::new();
    v.push(("rdx", Len::Full));
    v.push(("edx", Len::Low32));
    v.push(("dx", Len::Low16));
    v.push(("dh", Len::High8));
    v.push(("dl", Len::Low8));
    proof {
        assert(table_view(v@) =~= dx_table());
    }
    v
}

pub fn bx_aliases() -> (r: Vec<(&'static str, Len)>)
    ensures
        table_view(r@) == bx_table(),
{
    let mut v: Vec<(&'static str, Len)> = Vec::new();
    v.push(("rbx", Len::Full));
    v.push(("ebx", Len::Low32));
    v.push(("bx", Len::Low16));
    v.push(("bh", Len::High8));
    v.push(("bl", Len::Low8));
    proof {
        assert(table_view(v@) =~= bx_table());
    }
    v
}

pub fn sp_aliases() -> (r: Vec<(&'static str, Len)>)
    ensures
        table_view(r@) == sp_table(),
{
    let mut v: Vec<(&'static str, Len)> = Vec::new();
    v.push(("rsp", Len::Full));
    v.push(("esp", Len::Low32));
    v.push(("sp", Len::Low16));
    proof {
        assert(table_view(v@) =~= sp_table());
    }
    v
}

pub fn bp_aliases() -> (r: Vec<(&'static str, Len)>)
    ensures
        table_view(r@) == bp_table(),
{
    let mut v: Vec<(&'static str, Len)> = Vec::new();
    v.push(("rbp", Len::Full));
    v.push(("ebp", Len::Low32));
    v.push(("bp", Len::Low16));
    proof {
        assert(table_view(v@) =~= bp_table());
    }
    v
}

pub fn si_aliases() -> (r: Vec<(&'static str, Len)>)
    ensures
        table_view(r@) == si_table(),
{
    let mut v: Vec<(&'static str, Len)> = Vec::new();
    v.push(("rsi", Len::Full));
    v.push(("esi", Len::Low32));
    v.push(("si", Len::Low16));
    proof {
        assert(table_view(v@) =~= si_table());
    }
    v
}

pub fn di_aliases() -> (r: Vec<(&'static str, Len)>)
    ensures
        table_view(r@) == di_table(),
{
    let mut v: Vec<(&'static str, Len)> = Vec::new();
    v.push(("rdi", Len::Full));
    v.push(("edi", Len::Low32));
    v.push(("di", Len::Low16));
    proof {
        assert(table_view(v@) =~= di_table());
    }
    v
}

/// Try each alias of `table` in order against `input` at `pos`; the first
/// that occurs there wins, and exactly its length is consumed.
pub fn scan_table(input: &str, pos: usize, table: &Vec<(&'static str, Len)>) -> (r: Option<
    (usize, Len),
>)
    requires
        pos <= input@.len(),
    ensures
        match r {
            Some((p, l)) => {
                &&& spec_scan(input@, pos as int, table_view(table@)) == Some((p as int, l))
                &&& pos <= p <= input@.len()
            },
            None => spec_scan(input@, pos as int, table_view(table@)) is None,
        },
{
    let ilen: usize = input.unicode_len();
    let mut i: usize = 0;
    proof {
        assert(table_view(table@).skip(0) =~= table_view(table@));
    }
    while i < table.len()
        invariant
            pos <= input@.len(),
            ilen == input@.len(),
            i <= table@.len(),
            spec_scan(input@, pos as int, table_view(table@)) == spec_scan(
                input@,
                pos as int,
                table_view(table@).skip(i as int),
            ),
        decreases table@.len() - i,
    {
        let entry = table[i];
        proof {
            assert(table_view(table@).skip(i as int)[0] == (entry.0@, entry.1));
        }
        if eat_lit(input, pos, entry.0) {
            let p: usize = pos + entry.0.unicode_len();
            return Some((p, entry.1));
        }
        i = i + 1;
        proof {
            assert(table_view(table@).skip(i as int - 1).drop_first() =~= table_view(
                table@,
            ).skip(i as int));
        }
    }
    None
}

} // verus!
