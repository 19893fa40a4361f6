use crate::ets::{EtsTableInfo, TableInfoView};
use crate::order::views;
use crate::text::{push_signed_decimal, signed_decimal};
use vstd::prelude::*;
use vstd::string::*;

verus! {

/// What `humansize::format_size` with the `BINARY` options gives for a byte
/// count: it depends on the count alone.
pub uninterp spec fn binary_size_text(bytes: u64) -> Seq<char>;

/// Relies on `humansize::format_size` with `humansize::BINARY`: the count in
/// binary units (KiB, MiB, ...).
#[verifier::external_body]
fn binary_size(bytes: u64) -> (r: String)
    ensures
        r@ == binary_size_text(bytes),
{
    humansize::format_size(bytes, humansize::BINARY)
}

/// The text of a memory amount: binary units, or a plain `<n> bytes` for a
/// negative amount.
pub fn format_memory(bytes: i64) -> (r: String)
    ensures
        r@ == if bytes < 0 {
            signed_decimal(bytes as int) + " bytes"@
        } else {
            binary_size_text(bytes as u64)
        },
{
    if bytes < 0 {
        let mut text = String::new();
        push_signed_decimal(&mut text, bytes);
        text.append(" bytes");
        text
    } else {
        binary_size(bytes as u64)
    }
}

/// The memory of all the tables together, in bytes.
pub open spec fn memory_sum(s: Seq<TableInfoView>) -> int
    decreases s.len(),
{
    if s.len() == 0 {
        0
    } else {
        memory_sum(s.drop_last()) + s.last().memory_bytes
    }
}

/// The memory of all the tables together, in bytes; wide enough that no sum
/// overflows.
pub fn total_memory_bytes(tables: &Vec<EtsTableInfo>) -> (r: u128)
    ensures
        r == memory_sum(views(tables@)),
{
    let mut total: u128 = 0;
    let mut i: usize = 0;
    while i < tables.len()
        invariant
            i <= tables@.len(),
            total == memory_sum(views(tables@.take(i as int))),
            total <= i * 0xffff_ffff_ffff_ffffu128,
        decreases tables@.len() - i,
    {
        proof {
            assert(views(tables@.take(i + 1)).drop_last() =~= views(tables@.take(i as int)));
            assert(i * 0xffff_ffff_ffff_ffffu128 + 0xffff_ffff_ffff_ffffu128 == (i + 1) * 0xffff_ffff_ffff_ffffu128) by (nonlinear_arith);
            assert((i + 1) * 0xffff_ffff_ffff_ffffu128 <= 0x1_0000_0000_0000_0000u128 * 0xffff_ffff_ffff_ffffu128) by (nonlinear_arith)
                requires i < 0x1_0000_0000_0000_0000u128;
        }
        total = total + tables[i].memory_bytes as u128;
        i = i + 1;
    }
    assert(tables@.take(i as int) =~= tables@);
    total
}

} // verus!
