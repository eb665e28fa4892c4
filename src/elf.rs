//! Removing the program-header table from an ELF image, for JIT libraries
//! whose program header contradicts their sections.
use vstd::prelude::*;

verus! {

/// `\x7fELF`
pub open spec fn is_elf_image(data: Seq<u8>) -> bool {
    data.len() >= 4 && data[0] == 0x7f && data[1] == 0x45 && data[2] == 0x4c && data[3] == 0x46
}

/// The size of the ELF file header of class `class` (1: 32-bit, 2: 64-bit).
pub open spec fn header_size(class: u8) -> int {
    if class == 2 { 64 } else { 52 }
}

/// Whether byte `i` belongs to the header's program-header offset
/// (`e_phoff`) or program-header count (`e_phnum`).
pub open spec fn in_program_header_fields(class: u8, i: int) -> bool {
    if class == 2 {
        (0x20 <= i < 0x28) || (0x38 <= i < 0x3a)
    } else {
        (0x1c <= i < 0x20) || (0x2c <= i < 0x2e)
    }
}

/// The image with its program-header table dropped: the header's
/// program-header offset and count are zero, every other byte is kept.
/// None unless `data` is an ELF image of class 1 or 2 with a whole header.
pub open spec fn spec_drop_program_header(data: Seq<u8>) -> Option<Seq<u8>> {
    if is_elf_image(data) && data.len() > 4 && (data[4] == 1 || data[4] == 2) && data.len() >= header_size(data[4]) {
        Some(Seq::new(data.len(), |i: int| if in_program_header_fields(data[4], i) { 0u8 } else { data[i] }))
    } else {
        None
    }
}

/// Drops the program-header table of an ELF image (see `spec_drop_program_header`).
pub fn drop_program_header(data: &[u8]) -> (r: Option<Vec<u8>>)
    ensures
        match r {
            Some(v) => spec_drop_program_header(data@) == Some(v@),
            None => spec_drop_program_header(data@) is None,
        },
{
    let n = data.len();
    if n < 5 || data[0] != 0x7f || data[1] != 0x45 || data[2] != 0x4c || data[3] != 0x46 {
        return None;
    }
    let class = data[4];
    if class != 1 && class != 2 {
        return None;
    }
    let header: usize = if class == 2 { 64 } else { 52 };
    if n < header {
        return None;
    }
    let mut out: Vec<u8> = Vec::new();
    let mut i: usize = 0;
    while i < n
        invariant
            n == data@.len(),
            0 <= i <= n,
            out@.len() == i,
            forall|j: int| 0 <= j < i ==> #[trigger] out@[j] == if in_program_header_fields(class, j) { 0u8 } else { data@[j] },
        decreases n - i,
    {
        let zero = if class == 2 {
            (0x20 <= i && i < 0x28) || (0x38 <= i && i < 0x3a)
        } else {
            (0x1c <= i && i < 0x20) || (0x2c <= i && i < 0x2e)
        };
        out.push(if zero { 0 } else { data[i] });
        i = i + 1;
    }
    proof {
        assert(out@ =~= Seq::new(data@.len(), |j: int| if in_program_header_fields(data@[4], j) { 0u8 } else { data@[j] }));
    }
    Some(out)
}

} // verus!
