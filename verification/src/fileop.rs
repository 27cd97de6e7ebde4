//! The set of ways in which a process touched a file.

use vstd::prelude::*;

verus! {

/// Bit of the flag "file's previous contents are read".
pub const READ_BIT: u32 = 0b00001;

/// Bit of the flag "new contents are written to the file".
pub const WRITE_BIT: u32 = 0b00010;

/// Bit of the flag "file is a directory, used as a process's working dir".
pub const WDIR_BIT: u32 = 0b00100;

/// Bit of the flag "file is stat()'d (only metadata is read)".
pub const STAT_BIT: u32 = 0b01000;

/// Bit of the flag "the link itself is accessed, no dereference".
pub const LINK_BIT: u32 = 0b10000;

/// The bits of all the flags together.
pub const ALL_BITS: u32 = 0b11111;

/// Bit flags associated with a file access logged in the database.
#[derive(Debug, Clone, Copy, PartialEq, Eq, Hash, Structural)]
pub struct FileOp {
    bits: u32,
}

impl FileOp {
    /// No bit is set but those of the five flags.
    #[verifier::type_invariant]
    spec fn only_known_bits(&self) -> bool {
        self.bits & !ALL_BITS == 0
    }

    /// The set that holds exactly the flags whose bits are set in `bits`.
    pub closed spec fn of_bits(bits: u32) -> FileOp {
        FileOp { bits }
    }

    /// The flags as one integer, one bit for each flag.
    pub closed spec fn spec_bits(&self) -> u32 {
        self.bits
    }

    /// Returns the flags as one integer, one bit for each flag.
    #[verifier::when_used_as_spec(spec_bits)]
    pub fn bits(&self) -> (bits: u32)
        ensures
            bits == self.spec_bits(),
            bits & !ALL_BITS == 0,
            *self == Self::of_bits(bits),
    {
        proof {
            use_type_invariant(self);
        }
        self.bits
    }

    /// Returns the set with exactly the flags of `bits`, if every bit of it
    /// stands for a flag.
    pub fn from_bits(bits: u32) -> (set: Option<FileOp>)
        ensures
            set is Some <==> bits & !ALL_BITS == 0,
            set matches Some(s) ==> s == Self::of_bits(bits) && s.bits() == bits,
    {
        if bits & !ALL_BITS == 0 {
            Some(FileOp { bits })
        } else {
            None
        }
    }

    /// Returns the set without any flag.
    pub fn empty() -> (set: FileOp)
        ensures
            set == Self::of_bits(0),
            set.bits() == 0,
    {
        assert(0u32 & !0b11111u32 == 0) by (bit_vector);
        FileOp { bits: 0 }
    }

    /// Returns the set of the one flag "previous contents are read".
    pub fn read() -> (set: FileOp)
        ensures
            set == Self::of_bits(READ_BIT),
            set.bits() == READ_BIT,
    {
        assert(0b00001u32 & !0b11111u32 == 0) by (bit_vector);
        FileOp { bits: READ_BIT }
    }

    /// Returns the set of the one flag "new contents are written".
    pub fn write() -> (set: FileOp)
        ensures
            set == Self::of_bits(WRITE_BIT),
            set.bits() == WRITE_BIT,
    {
        assert(0b00010u32 & !0b11111u32 == 0) by (bit_vector);
        FileOp { bits: WRITE_BIT }
    }

    /// Returns the set of the one flag "used as a working directory".
    pub fn wdir() -> (set: FileOp)
        ensures
            set == Self::of_bits(WDIR_BIT),
            set.bits() == WDIR_BIT,
    {
        assert(0b00100u32 & !0b11111u32 == 0) by (bit_vector);
        FileOp { bits: WDIR_BIT }
    }

    /// Returns the set of the one flag "only metadata is read".
    pub fn stat() -> (set: FileOp)
        ensures
            set == Self::of_bits(STAT_BIT),
            set.bits() == STAT_BIT,
    {
        assert(0b01000u32 & !0b11111u32 == 0) by (bit_vector);
        FileOp { bits: STAT_BIT }
    }

    /// Returns the set of the one flag "the link itself is accessed".
    pub fn link() -> (set: FileOp)
        ensures
            set == Self::of_bits(LINK_BIT),
            set.bits() == LINK_BIT,
    {
        assert(0b10000u32 & !0b11111u32 == 0) by (bit_vector);
        FileOp { bits: LINK_BIT }
    }

    /// Whether no flag is set.
    pub open spec fn spec_is_empty(&self) -> bool {
        self.bits() == 0
    }

    /// Returns whether no flag is set.
    #[verifier::when_used_as_spec(spec_is_empty)]
    pub fn is_empty(&self) -> (b: bool)
        ensures
            b == self.spec_is_empty(),
    {
        self.bits == 0
    }

    /// Whether every flag of `other` is set in `self`.
    pub open spec fn spec_contains(&self, other: FileOp) -> bool {
        self.bits() & other.bits() == other.bits()
    }

    /// Returns whether every flag of `other` is set in `self`.
    #[verifier::when_used_as_spec(spec_contains)]
    pub fn contains(&self, other: FileOp) -> (b: bool)
        ensures
            b == self.spec_contains(other),
    {
        self.bits & other.bits == other.bits
    }

    /// Returns the set of the flags that are in `self` or in `other`.
    pub fn union(self, other: FileOp) -> (set: FileOp)
        ensures
            set == Self::of_bits(self.bits() | other.bits()),
            set.bits() == self.bits() | other.bits(),
    {
        let a: u32 = self.bits;
        let b: u32 = other.bits;
        proof {
            use_type_invariant(&self);
            use_type_invariant(&other);
            assert(a & !0b11111u32 == 0 && b & !0b11111u32 == 0 ==> (a | b) & !0b11111u32 == 0)
                by (bit_vector);
        }
        FileOp { bits: a | b }
    }

    /// A set is the set of its own bits, and the bits of the set of some
    /// bits are those bits.
    pub proof fn lemma_bits_round_trip(set: FileOp, bits: u32)
        ensures
            Self::of_bits(set.bits()) == set,
            Self::of_bits(bits).bits() == bits,
    {
    }
}

} // verus!
