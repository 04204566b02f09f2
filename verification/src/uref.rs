//! Unforgeable references: an address in the network's global storage
//! together with the access rights the reference grants.

use vstd::prelude::*;

use vstd::string::StringSliceAdditionalSpecFns;

use crate::hex::{
    ascii_bytes_to_string, hex_decode, hex_encode_lower, spec_hex_decodable, spec_hex_decode,
    spec_hex_lower,
};

verus! {

/// The number of bytes in a [`URef`] address.
pub const UREF_ADDR_LENGTH: usize = 32;

/// The number of bytes in a serialized [`URef`].
pub const UREF_SERIALIZED_LENGTH: usize = 33;

/// The address of a [`URef`] on the network.
pub type URefAddr = [u8; 32];

/// The access rights of an unforgeable reference: any combination of the
/// read, write and add permissions, packed as the three low bits of a byte.
#[derive(Clone, Copy, PartialEq, Eq, Structural, Debug, Hash)]
pub struct AccessRights {
    pub bits: u8,
}

impl AccessRights {
    /// Access rights are well formed when only the three permission bits are
    /// set.
    pub open spec fn wf(&self) -> bool {
        self.bits <= 7
    }

    /// No permissions.
    pub fn none() -> (r: AccessRights)
        ensures
            r.bits == 0,
    {
        AccessRights { bits: 0 }
    }

    /// Permission to read.
    pub fn read() -> (r: AccessRights)
        ensures
            r.bits == 1,
    {
        AccessRights { bits: 1 }
    }

    /// Permission to write.
    pub fn write() -> (r: AccessRights)
        ensures
            r.bits == 2,
    {
        AccessRights { bits: 2 }
    }

    /// Permission to add.
    pub fn add_only() -> (r: AccessRights)
        ensures
            r.bits == 4,
    {
        AccessRights { bits: 4 }
    }

    /// Permission to read, add and write.
    pub fn read_add_write() -> (r: AccessRights)
        ensures
            r.bits == 7,
    {
        AccessRights { bits: 7 }
    }

    /// The raw permission bits.
    pub fn bits(&self) -> (r: u8)
        ensures
            r == self.bits,
    {
        self.bits
    }

    /// Reconstructs access rights from raw bits; fails when any bit outside
    /// the three permission bits is set.
    pub fn from_bits(bits: u8) -> (r: Option<AccessRights>)
        ensures
            r == (if bits <= 7 {
                Some(AccessRights { bits })
            } else {
                None::<AccessRights>
            }),
    {
        if bits <= 7 {
            Some(AccessRights { bits })
        } else {
            None
        }
    }

    /// Whether the read permission bit is set.
    pub open spec fn spec_is_readable(&self) -> bool {
        self.bits & 1 == 1
    }

    /// Whether the write permission bit is set.
    pub open spec fn spec_is_writeable(&self) -> bool {
        self.bits & 2 == 2
    }

    /// Whether the add permission bit is set.
    pub open spec fn spec_is_addable(&self) -> bool {
        self.bits & 4 == 4
    }

    /// Whether the rights grant reading.
    pub fn is_readable(&self) -> (r: bool)
        ensures
            r == self.spec_is_readable(),
    {
        self.bits & 1 == 1
    }

    /// Whether the rights grant writing.
    pub fn is_writeable(&self) -> (r: bool)
        ensures
            r == self.spec_is_writeable(),
    {
        self.bits & 2 == 2
    }

    /// Whether the rights grant adding.
    pub fn is_addable(&self) -> (r: bool)
        ensures
            r == self.spec_is_addable(),
    {
        self.bits & 4 == 4
    }
}

/// Why a formatted [`URef`] string failed to parse.
#[derive(Clone, Copy, PartialEq, Eq, Structural, Debug)]
pub enum FromStrError {
    /// The string does not start with the `uref-` prefix.
    InvalidPrefix,
    /// No separator between the address and the access rights.
    MissingSuffix,
    /// The access rights value has bits outside the three permission bits.
    InvalidAccessRights,
    /// The address is not a decodable hexadecimal string.
    Hex,
    /// The access rights are not an octal number that fits a byte.
    Int,
    /// The decoded address does not have exactly 32 bytes.
    Address,
}

/// An unforgeable reference: an address and the access rights granted on it.
#[derive(Clone, Copy, PartialEq, Eq, Debug, Hash)]
pub struct URef(pub URefAddr, pub AccessRights);

// ---------------------------------------------------------------------------
// The formatted string: `uref-<64 hex digits>-<3 octal digits>`.
// ---------------------------------------------------------------------------
/// The ASCII bytes of the `uref-` prefix.
pub open spec fn spec_uref_prefix() -> Seq<u8> {
    seq![117u8, 114u8, 101u8, 102u8, 45u8]
}

/// The octal digit character of a value below 8.
pub open spec fn spec_octal_digit_char(n: int) -> char {
    ((48 + n) as u8) as char
}

/// The formatted rendering of a [`URef`]: the prefix, the address in
/// lower-case hexadecimal, a separator, and the access rights as three octal
/// digits.
pub open spec fn spec_uref_string(u: URef) -> Seq<char> {
    seq!['u', 'r', 'e', 'f', '-'] + spec_hex_lower(u.0@) + seq!['-'] + seq![
        spec_octal_digit_char(u.1.bits as int / 64),
        spec_octal_digit_char((u.1.bits as int / 8) % 8),
        spec_octal_digit_char(u.1.bits as int % 8),
    ]
}

/// The position of the first `-` byte at or after `i`.
pub open spec fn spec_find_dash(bs: Seq<u8>, i: int) -> Option<int>
    decreases bs.len() - i,
{
    if i < 0 || i >= bs.len() {
        None
    } else if bs[i] == 45 {
        Some(i)
    } else {
        spec_find_dash(bs, i + 1)
    }
}

/// Whether a byte is an ASCII octal digit.
pub open spec fn spec_is_octal_digit(b: u8) -> bool {
    48 <= b <= 55
}

/// The value of a string of octal digits read so far into `acc`; more than a
/// byte's worth, a non-digit, or an empty tail with an empty start all fail.
pub open spec fn spec_octal_val(bs: Seq<u8>, i: int, acc: int) -> Option<u8>
    decreases bs.len() - i,
{
    if acc > 255 {
        None
    } else if i < 0 || i >= bs.len() {
        Some(acc as u8)
    } else if spec_is_octal_digit(bs[i]) {
        spec_octal_val(bs, i + 1, acc * 8 + (bs[i] - 48))
    } else {
        None
    }
}

/// Parses an ASCII octal number into a byte, as the access rights suffix is
/// parsed: an optional leading plus sign, then at least one octal digit,
/// with the value capped at a byte.
pub open spec fn spec_octal_parse(bs: Seq<u8>) -> Option<u8> {
    if bs.len() == 0 {
        None
    } else if bs[0] == 43 {
        if bs.len() == 1 {
            None
        } else {
            spec_octal_val(bs.subrange(1, bs.len() as int), 0, 0)
        }
    } else {
        spec_octal_val(bs, 0, 0)
    }
}

/// What parsing a formatted string yields, step by step: the prefix, the
/// first separator, the hexadecimal address of exactly 32 bytes, and the
/// octal access rights with only permission bits set.
pub open spec fn spec_uref_parse(bs: Seq<u8>) -> Result<URef, FromStrError> {
    if !(bs.len() >= 5 && bs.subrange(0, 5) =~= spec_uref_prefix()) {
        Err(FromStrError::InvalidPrefix)
    } else {
        let rem = bs.subrange(5, bs.len() as int);
        match spec_find_dash(rem, 0) {
            None => Err(FromStrError::MissingSuffix),
            Some(d) => {
                let addr_part = rem.subrange(0, d);
                let suffix = rem.subrange(d + 1, rem.len() as int);
                if !spec_hex_decodable(addr_part) {
                    Err(FromStrError::Hex)
                } else if spec_hex_decode(addr_part).len() != 32 {
                    Err(FromStrError::Address)
                } else {
                    match spec_octal_parse(suffix) {
                        None => Err(FromStrError::Int),
                        Some(bits) => {
                            if bits > 7 {
                                Err(FromStrError::InvalidAccessRights)
                            } else {
                                Ok(
                                    URef(
                                        spec_seq_to_addr(spec_hex_decode(addr_part)),
                                        AccessRights { bits },
                                    ),
                                )
                            }
                        },
                    }
                }
            },
        }
    }
}

/// The 32-byte array holding the same bytes as a length-32 sequence.
pub open spec fn spec_seq_to_addr(bs: Seq<u8>) -> URefAddr {
    choose|a: URefAddr| a@ =~= bs
}

impl URef {
    /// Constructs a [`URef`] from an address and access rights.
    pub fn new(address: URefAddr, access_rights: AccessRights) -> (r: URef)
        ensures
            r.0 == address,
            r.1 == access_rights,
    {
        URef(address, access_rights)
    }

    /// The address of this reference.
    pub fn addr(&self) -> (r: URefAddr)
        ensures
            r == self.0,
    {
        self.0
    }

    /// The access rights of this reference.
    pub fn access_rights(&self) -> (r: AccessRights)
        ensures
            r == self.1,
    {
        self.1
    }

    /// The same address with the given access rights.
    pub fn with_access_rights(self, access_rights: AccessRights) -> (r: URef)
        ensures
            r.0 == self.0,
            r.1 == access_rights,
    {
        URef(self.0, access_rights)
    }

    /// The same address with all access rights removed.
    pub fn remove_access_rights(self) -> (r: URef)
        ensures
            r.0 == self.0,
            r.1.bits == 0,
    {
        URef(self.0, AccessRights::none())
    }

    /// Whether the reference grants reading.
    pub fn is_readable(self) -> (r: bool)
        ensures
            r == self.1.spec_is_readable(),
    {
        self.1.is_readable()
    }

    /// The same address with read permission only.
    pub fn into_read(self) -> (r: URef)
        ensures
            r.0 == self.0,
            r.1.bits == 1,
    {
        URef(self.0, AccessRights::read())
    }

    /// The same address with read, add and write permissions.
    pub fn into_read_add_write(self) -> (r: URef)
        ensures
            r.0 == self.0,
            r.1.bits == 7,
    {
        URef(self.0, AccessRights::read_add_write())
    }

    /// Whether the reference grants writing.
    pub fn is_writeable(self) -> (r: bool)
        ensures
            r == self.1.spec_is_writeable(),
    {
        self.1.is_writeable()
    }

    /// Whether the reference grants adding.
    pub fn is_addable(self) -> (r: bool)
        ensures
            r == self.1.spec_is_addable(),
    {
        self.1.is_addable()
    }

    /// Formats the address and access rights in the unique way used to key
    /// stored references: the `uref-` prefix, the address in lower-case
    /// hexadecimal, and the access rights as three octal digits.
    pub fn to_formatted_string(&self) -> (r: String)
        requires
            self.1.wf(),
        ensures
            r@ == spec_uref_string(*self),
    {
        let mut s = String::new();
        s.append("uref-");
        let hex = hex_encode_lower(vstd::array::array_as_slice(&self.0));
        s.append(hex.as_str());
        s.append("-");
        let bits = self.1.bits;
        let mut digits: Vec<u8> = Vec::new();
        digits.push(48 + bits / 64);
        digits.push(48 + (bits / 8) % 8);
        digits.push(48 + bits % 8);
        let suffix = ascii_bytes_to_string(digits);
        s.append(suffix.as_str());
        proof {
            reveal_strlit("uref-");
            reveal_strlit("-");
            assert(s@ =~= spec_uref_string(*self));
        }
        s
    }

    /// Parses a string formatted as by [`URef::to_formatted_string`].
    #[verifier::loop_isolation(false)]
    pub fn from_formatted_str(input: &str) -> (r: Result<URef, FromStrError>)
        ensures
            ({
                let parsed = spec_uref_parse(input.spec_bytes());
                match r {
                    Ok(u) => parsed is Ok && u.0@ =~= spec_hex_decode(
                        spec_uref_parse_addr(input.spec_bytes()),
                    ) && u.1 == parsed.unwrap().1 && u.1.wf(),
                    Err(e) => parsed == Err::<URef, FromStrError>(e),
                }
            }),
    {
        let bs = input.as_bytes();
        let len = bs.len();
        if len < 5 {
            proof {
                assert(!(input.spec_bytes().len() >= 5 && input.spec_bytes().subrange(0, 5)
                    =~= spec_uref_prefix()));
            }
            return Err(FromStrError::InvalidPrefix);
        }
        if !(bs[0] == 117 && bs[1] == 114 && bs[2] == 101 && bs[3] == 102 && bs[4] == 45) {
            proof {
                assert(!(input.spec_bytes().subrange(0, 5) =~= spec_uref_prefix()));
            }
            return Err(FromStrError::InvalidPrefix);
        }
        proof {
            assert(input.spec_bytes().subrange(0, 5) =~= spec_uref_prefix());
        }
        let ghost rem = input.spec_bytes().subrange(5, input.spec_bytes().len() as int);
        // Find the separator between the address and the access rights.
        let mut d: usize = 5;
        while d < len && bs[d] != 45
            invariant
                5 <= d <= len,
                spec_find_dash(rem, 0) == spec_find_dash(rem, d - 5),
            decreases len - d,
        {
            proof {
                assert(rem[d - 5] == input.spec_bytes()[d as int]);
            }
            d = d + 1;
        }
        if d == len {
            proof {
                assert(spec_find_dash(rem, d - 5) is None);
            }
            return Err(FromStrError::MissingSuffix);
        }
        proof {
            assert(rem[d - 5] == input.spec_bytes()[d as int]);
            assert(spec_find_dash(rem, 0) == Some(d - 5));
        }
        let addr_slice = vstd::slice::slice_subrange(bs, 5, d);
        proof {
            assert(addr_slice@ =~= rem.subrange(0, d - 5));
        }
        let decoded = match hex_decode(addr_slice) {
            Ok(v) => v,
            Err(_) => {
                return Err(FromStrError::Hex);
            },
        };
        if decoded.len() != 32 {
            return Err(FromStrError::Address);
        }
        let suffix_slice = vstd::slice::slice_subrange(bs, d + 1, len);
        proof {
            assert(suffix_slice@ =~= rem.subrange(d - 5 + 1, rem.len() as int));
        }
        let bits = match Self::parse_octal(suffix_slice) {
            Some(bits) => bits,
            None => {
                return Err(FromStrError::Int);
            },
        };
        let rights = match AccessRights::from_bits(bits) {
            Some(rights) => rights,
            None => {
                return Err(FromStrError::InvalidAccessRights);
            },
        };
        let mut addr: URefAddr = [0u8; 32];
        let mut i: usize = 0;
        while i < 32
            invariant
                0 <= i <= 32,
                decoded@.len() == 32,
                forall|k: int| 0 <= k < i ==> addr@[k] == decoded@[k],
            decreases 32 - i,
        {
            addr[i] = decoded[i];
            i = i + 1;
        }
        proof {
            assert(addr@ =~= decoded@);
        }
        Ok(URef(addr, rights))
    }

    /// Parses the access rights suffix: an optional plus sign, then octal
    /// digits, capped at a byte.
    #[verifier::loop_isolation(false)]
    fn parse_octal(bs: &[u8]) -> (r: Option<u8>)
        ensures
            r == spec_octal_parse(bs@),
    {
        let len = bs.len();
        if len == 0 {
            return None;
        }
        let start: usize = if bs[0] == 43 {
            1
        } else {
            0
        };
        if start == 1 && len == 1 {
            return None;
        }
        let ghost digits = if start == 1 {
            bs@.subrange(1, bs@.len() as int)
        } else {
            bs@
        };
        let mut acc: u32 = 0;
        let mut i: usize = start;
        while i < len
            invariant
                start <= i <= len,
                len == bs@.len(),
                acc <= 255,
                digits == (if start == 1 {
                    bs@.subrange(1, bs@.len() as int)
                } else {
                    bs@
                }),
                spec_octal_val(digits, 0, 0) == spec_octal_val(
                    digits,
                    i - start,
                    acc as int,
                ),
            decreases len - i,
        {
            proof {
                assert(digits[i - start] == bs@[i as int]);
            }
            let b = bs[i];
            if !(48 <= b && b <= 55) {
                return None;
            }
            let next = acc * 8 + (b - 48) as u32;
            if next > 255 {
                proof {
                    assert(spec_octal_val(digits, i - start + 1, next as int) is None);
                }
                return None;
            }
            acc = next;
            i = i + 1;
        }
        Some(acc as u8)
    }
}

impl URef {
    /// The serialized bytes of the reference: the 32 address bytes, then the
    /// access rights byte.
    pub open spec fn spec_to_bytes(&self) -> Seq<u8> {
        self.0@ + seq![self.1.bits]
    }

    /// Serializes the reference to its canonical 33 bytes.
    pub fn to_bytes(&self) -> (r: Vec<u8>)
        ensures
            r@ == self.spec_to_bytes(),
            r@.len() == 33,
    {
        let mut out: Vec<u8> = Vec::with_capacity(33);
        let mut i: usize = 0;
        while i < 32
            invariant
                0 <= i <= 32,
                out@ =~= self.0@.subrange(0, i as int),
            decreases 32 - i,
        {
            out.push(self.0[i]);
            proof {
                assert(self.0@.subrange(0, i + 1 as int) =~= self.0@.subrange(0, i as int)
                    + seq![self.0@[i as int]]);
            }
            i = i + 1;
        }
        proof {
            assert(self.0@.subrange(0, 32) =~= self.0@);
        }
        out.push(self.1.bits);
        proof {
            assert(out@ =~= self.spec_to_bytes());
        }
        out
    }

    /// The number of bytes `to_bytes` produces.
    pub fn serialized_length(&self) -> (r: usize)
        ensures
            r == 33,
    {
        UREF_SERIALIZED_LENGTH
    }

    /// Deserializes a reference from the front of `bytes`, returning it with
    /// the remainder: exactly 33 bytes are consumed, and the access rights
    /// byte may only have permission bits set.
    pub fn from_bytes<'a>(bytes: &'a [u8]) -> (r: Option<(URef, &'a [u8])>)
        ensures
            match r {
                Some(pair) => {
                    &&& bytes@.len() >= 33
                    &&& bytes@[32] <= 7
                    &&& pair.0.0@ =~= bytes@.subrange(0, 32)
                    &&& pair.0.1.bits == bytes@[32]
                    &&& pair.1@ =~= bytes@.subrange(33, bytes@.len() as int)
                },
                None => bytes@.len() < 33 || bytes@[32] > 7,
            },
    {
        if bytes.len() < 33 {
            return None;
        }
        let rights = match AccessRights::from_bits(bytes[32]) {
            Some(rights) => rights,
            None => {
                return None;
            },
        };
        let mut addr: URefAddr = [0u8; 32];
        let mut i: usize = 0;
        while i < 32
            invariant
                0 <= i <= 32,
                bytes@.len() >= 33,
                forall|k: int| 0 <= k < i ==> addr@[k] == bytes@[k],
            decreases 32 - i,
        {
            addr[i] = bytes[i];
            i = i + 1;
        }
        proof {
            assert(addr@ =~= bytes@.subrange(0, 32));
        }
        let rest = vstd::slice::slice_subrange(bytes, 33, bytes.len());
        Some((URef(addr, rights), rest))
    }
}

/// The address part of a formatted string, for stating what parsing yields.
pub open spec fn spec_uref_parse_addr(bs: Seq<u8>) -> Seq<u8> {
    let rem = bs.subrange(5, bs.len() as int);
    let d = spec_find_dash(rem, 0).unwrap();
    rem.subrange(0, d)
}

} // verus!
