//! Subnetwork identifiers: 20-byte ids partitioning transactions, with the
//! built-in coinbase and registry ids and the native id, and a hex form.
use vstd::prelude::*;

verus! {

/// The size of the array used to store subnetwork IDs.
pub const SUBNETWORK_ID_SIZE: usize = 20;

/// The domain representation of a Subnetwork ID.
#[derive(Clone, Copy, Debug, PartialEq, Eq, Hash)]
pub struct SubnetworkId {
    bytes: [u8; 20],
}

impl View for SubnetworkId {
    type V = Seq<u8>;

    closed spec fn view(&self) -> Seq<u8> {
        self.bytes@
    }
}

/// The id whose first byte is `b` and whose other bytes are zero.
pub open spec fn spec_id_from_byte(b: u8) -> Seq<u8> {
    Seq::new(20, |i: int| if i == 0 { b } else { 0u8 })
}

/// The native subnetwork id, for transactions without related payload data.
pub open spec fn spec_subnetwork_id_native() -> Seq<u8> {
    spec_id_from_byte(0)
}

/// The subnetwork id of coinbase transactions.
pub open spec fn spec_subnetwork_id_coinbase() -> Seq<u8> {
    spec_id_from_byte(1)
}

/// The subnetwork id used for adding new subnetworks to the registry.
pub open spec fn spec_subnetwork_id_registry() -> Seq<u8> {
    spec_id_from_byte(2)
}

/// A built-in subnetwork must be validated by all nodes and its transactions
/// always use zero gas.
pub open spec fn spec_is_builtin(id: Seq<u8>) -> bool {
    id == spec_subnetwork_id_coinbase() || id == spec_subnetwork_id_registry()
}

/// True for ASCII hexadecimal digits of either case.
pub open spec fn is_hex_byte(b: u8) -> bool {
    (48 <= b <= 57) || (97 <= b <= 102) || (65 <= b <= 70)
}

/// The numeric value of an ASCII hexadecimal digit.
pub open spec fn hex_byte_val(b: u8) -> u8 {
    if 48 <= b <= 57 {
        (b - 48) as u8
    } else if 97 <= b <= 102 {
        (b - 87) as u8
    } else {
        (b - 55) as u8
    }
}

/// The lowercase hexadecimal digit of a nibble.
pub open spec fn hex_char_lower(n: u8) -> char {
    seq!['0', '1', '2', '3', '4', '5', '6', '7', '8', '9', 'a', 'b', 'c', 'd', 'e', 'f'][n as int]
}

/// The lowercase hexadecimal rendering of a byte string: two digits per byte,
/// high nibble first.
pub open spec fn spec_hex_lower(s: Seq<u8>) -> Seq<char> {
    Seq::new(
        s.len() * 2,
        |i: int|
            if i % 2 == 0 {
                hex_char_lower(s[i / 2] / 16)
            } else {
                hex_char_lower(s[i / 2] % 16)
            },
    )
}

/// The bytes that a string of hexadecimal digit pairs decodes to.
pub open spec fn spec_hex_decoded(s: Seq<u8>) -> Seq<u8> {
    Seq::new(s.len() / 2, |i: int| (hex_byte_val(s[2 * i]) * 16 + hex_byte_val(s[2 * i + 1])) as u8)
}

/// Why a hexadecimal string failed to decode into a subnetwork id.
#[derive(Clone, Copy, Debug, PartialEq, Eq, Structural)]
pub enum HexDecodeError {
    /// The input holds an odd number of bytes.
    OddLength,
    /// The input decodes to a length other than the id size.
    LengthMismatch,
    /// The input holds a byte that is not a hexadecimal digit.
    InvalidChar,
}

/// Relies on faster_hex::hex_string: encodes each input byte as two lowercase
/// hexadecimal digits, high nibble first.
#[verifier::external_body]
fn hex_string_lower_20(src: &[u8; 20]) -> (r: String)
    ensures
        r@ == spec_hex_lower(src@),
{
    faster_hex::hex_string(src)
}

/// Relies on faster_hex::hex_decode_array: decodes exactly twenty bytes,
/// accepting either letter case, checking odd length first, then the decoded
/// length, then the first invalid character.
#[verifier::external_body]
fn hex_decode_20(src: &[u8]) -> (r: Result<[u8; 20], HexDecodeError>)
    ensures
        match r {
            Ok(b) => src@.len() == 40 && (forall|i: int| 0 <= i < 40 ==> is_hex_byte(src@[i]))
                && b@ == spec_hex_decoded(src@),
            Err(e) => if src@.len() % 2 != 0 {
                e == HexDecodeError::OddLength
            } else if src@.len() != 40 {
                e == HexDecodeError::LengthMismatch
            } else {
                e == HexDecodeError::InvalidChar && !(forall|i: int|
                    0 <= i < 40 ==> is_hex_byte(src@[i]))
            },
        },
{
    match faster_hex::hex_decode_array::<20>(src) {
        Ok(b) => Ok(b),
        Err(faster_hex::Error::OddLength) => Err(HexDecodeError::OddLength),
        Err(faster_hex::Error::LengthMismatch { .. }) => Err(HexDecodeError::LengthMismatch),
        Err(faster_hex::Error::InvalidChar { .. }) => Err(HexDecodeError::InvalidChar),
        Err(_) => Err(HexDecodeError::InvalidChar),
    }
}

/// Byte-wise equality of two id arrays.
fn eq20(a: &[u8; 20], b: &[u8; 20]) -> (r: bool)
    ensures
        r <==> a@ == b@,
{
    let mut i: usize = 0;
    while i < 20
        invariant
            i <= 20,
            forall|j: int| 0 <= j < i ==> a@[j] == b@[j],
        decreases 20 - i,
    {
        if a[i] != b[i] {
            assert(a@ != b@);
            return false;
        }
        i += 1;
    }
    assert(a@ =~= b@);
    true
}

impl SubnetworkId {
    /// The id whose first byte is `b` and whose other bytes are zero.
    pub fn from_byte(b: u8) -> (r: SubnetworkId)
        ensures
            r@ == spec_id_from_byte(b),
    {
        let mut bytes = [0u8; 20];
        bytes[0] = b;
        let r = SubnetworkId { bytes };
        assert(r@ =~= spec_id_from_byte(b));
        r
    }

    /// The id holding exactly the given bytes.
    pub fn from_bytes(bytes: [u8; 20]) -> (r: SubnetworkId)
        ensures
            r@ == bytes@,
    {
        SubnetworkId { bytes }
    }

    /// The id's raw bytes.
    pub fn to_bytes(&self) -> (r: [u8; 20])
        ensures
            r@ == self@,
    {
        self.bytes
    }

    /// Byte-wise equality of two ids.
    pub fn eq_id(&self, other: &SubnetworkId) -> (r: bool)
        ensures
            r == (self@ == other@),
    {
        eq20(&self.bytes, &other.bytes)
    }

    /// Returns true if the subnetwork is a built-in subnetwork, which means
    /// all nodes, including partial nodes, must validate it, and its
    /// transactions always use 0 gas.
    pub fn is_builtin(&self) -> (r: bool)
        ensures
            r == spec_is_builtin(self@),
    {
        let coinbase = Self::from_byte(1);
        let registry = Self::from_byte(2);
        eq20(&self.bytes, &coinbase.bytes) || eq20(&self.bytes, &registry.bytes)
    }

    /// Returns true if the subnetwork is the native or a built-in subnetwork.
    pub fn is_builtin_or_native(&self) -> (r: bool)
        ensures
            r == (self@ == spec_subnetwork_id_native() || spec_is_builtin(self@)),
    {
        let native = Self::from_byte(0);
        eq20(&self.bytes, &native.bytes) || self.is_builtin()
    }

    /// The lowercase hexadecimal rendering of the id.
    pub fn to_hex(&self) -> (r: String)
        ensures
            r@ == spec_hex_lower(self@),
    {
        hex_string_lower_20(&self.bytes)
    }

    /// Parses an id from hexadecimal digits: exactly forty digits of either
    /// case, two per byte.
    pub fn from_hex(src: &[u8]) -> (r: Result<SubnetworkId, HexDecodeError>)
        ensures
            src@.len() % 2 != 0 ==> r == Result::<SubnetworkId, HexDecodeError>::Err(
                HexDecodeError::OddLength,
            ),
            src@.len() % 2 == 0 && src@.len() != 40 ==> r == Result::<
                SubnetworkId,
                HexDecodeError,
            >::Err(HexDecodeError::LengthMismatch),
            src@.len() == 40 && !(forall|i: int| 0 <= i < 40 ==> is_hex_byte(src@[i])) ==> r
                == Result::<SubnetworkId, HexDecodeError>::Err(HexDecodeError::InvalidChar),
            src@.len() == 40 && (forall|i: int| 0 <= i < 40 ==> is_hex_byte(src@[i])) ==> (r
                matches Ok(id) && id@ == spec_hex_decoded(src@)),
    {
        match hex_decode_20(src) {
            Ok(bytes) => Ok(SubnetworkId { bytes }),
            Err(e) => Err(e),
        }
    }
}

/// The default subnetwork ID which is used for transactions without related
/// payload data.
pub fn subnetwork_id_native() -> (r: SubnetworkId)
    ensures
        r@ == spec_subnetwork_id_native(),
{
    SubnetworkId::from_byte(0)
}

/// The subnetwork ID which is used for the coinbase transaction.
pub fn subnetwork_id_coinbase() -> (r: SubnetworkId)
    ensures
        r@ == spec_subnetwork_id_coinbase(),
{
    SubnetworkId::from_byte(1)
}

/// The subnetwork ID which is used for adding new sub networks to the registry.
pub fn subnetwork_id_registry() -> (r: SubnetworkId)
    ensures
        r@ == spec_subnetwork_id_registry(),
{
    SubnetworkId::from_byte(2)
}

} // verus!
