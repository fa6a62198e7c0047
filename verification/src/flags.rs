use vstd::prelude::*;

verus! {

// Flags for opening a file. Exactly one access mode is chosen; the option
// bits may then be combined with it by bitwise or. The numeric layout is
// part of the kernel interface and must not change.

/// Open for reading only.
pub const O_RDONLY: usize = 0;
/// Open for writing only.
pub const O_WRONLY: usize = 1;
/// Open for reading and writing.
pub const O_RDWR: usize = 2;
/// Create the file if it does not exist.
pub const O_CREAT: usize = 0x00000004;
/// Fail if creation was requested and the file already exists.
pub const O_EXCL: usize = 0x00000008;
/// Truncate the file upon open.
pub const O_TRUNC: usize = 0x00000010;
/// Append on each write.
pub const O_APPEND: usize = 0x00000020;

/// Access-mode values and option bits occupy disjoint bit positions: combining
/// the chosen access mode with any set of option bits by bitwise or preserves
/// both exactly, so the option bits are always safe to or in.
pub proof fn lemma_flag_bits_disjoint(mode: usize, opts: usize)
    requires
        mode == O_RDONLY || mode == O_WRONLY || mode == O_RDWR,
        opts & (O_CREAT | O_EXCL | O_TRUNC | O_APPEND) == opts,
    ensures
        (mode | opts) & 0x3 == mode,
        (mode | opts) & (O_CREAT | O_EXCL | O_TRUNC | O_APPEND) == opts,
{
    assert((4usize | 8usize | 0x10usize | 0x20usize) == 0x3Cusize) by (bit_vector);
    assert((mode | opts) & 0x3 == mode && (mode | opts) & 0x3C == opts) by (bit_vector)
        requires
            (mode == 0 || mode == 1 || mode == 2) && opts & 0x3C == opts,
    ;
}

} // verus!
