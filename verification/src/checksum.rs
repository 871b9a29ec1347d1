//! Content addressing: 32-byte SHA-256 checksums, their lowercase hex text
//! form, and streaming digest computation.

use vstd::prelude::*;

use crate::errors::Error;

verus! {

/// The number of bytes of a digest.
pub const CHECKSUM_LEN: usize = 32;

/// The lowercase hex digit for a value below sixteen.
pub open spec fn spec_hex_digit(d: int) -> char {
    if d == 0 {
        '0'
    } else if d == 1 {
        '1'
    } else if d == 2 {
        '2'
    } else if d == 3 {
        '3'
    } else if d == 4 {
        '4'
    } else if d == 5 {
        '5'
    } else if d == 6 {
        '6'
    } else if d == 7 {
        '7'
    } else if d == 8 {
        '8'
    } else if d == 9 {
        '9'
    } else if d == 10 {
        'a'
    } else if d == 11 {
        'b'
    } else if d == 12 {
        'c'
    } else if d == 13 {
        'd'
    } else if d == 14 {
        'e'
    } else {
        'f'
    }
}

/// The value of a hex digit character, upper or lower case; none for any
/// other character.
pub open spec fn spec_hex_value(c: char) -> Option<int> {
    if c == '0' {
        Some(0int)
    } else if c == '1' {
        Some(1int)
    } else if c == '2' {
        Some(2int)
    } else if c == '3' {
        Some(3int)
    } else if c == '4' {
        Some(4int)
    } else if c == '5' {
        Some(5int)
    } else if c == '6' {
        Some(6int)
    } else if c == '7' {
        Some(7int)
    } else if c == '8' {
        Some(8int)
    } else if c == '9' {
        Some(9int)
    } else if c == 'a' || c == 'A' {
        Some(10int)
    } else if c == 'b' || c == 'B' {
        Some(11int)
    } else if c == 'c' || c == 'C' {
        Some(12int)
    } else if c == 'd' || c == 'D' {
        Some(13int)
    } else if c == 'e' || c == 'E' {
        Some(14int)
    } else if c == 'f' || c == 'F' {
        Some(15int)
    } else {
        None
    }
}

/// The lowercase hex text of a byte sequence: two digits for each byte.
pub open spec fn spec_hex(bytes: Seq<u8>) -> Seq<char>
    decreases bytes.len(),
{
    if bytes.len() == 0 {
        Seq::empty()
    } else {
        seq![
            spec_hex_digit((bytes[0] / 16) as int),
            spec_hex_digit((bytes[0] % 16) as int),
        ] + spec_hex(bytes.skip(1))
    }
}

/// The bytes a hex text parses to; none for an odd length or a character
/// that is not a hex digit.
pub open spec fn spec_from_hex(s: Seq<char>) -> Option<Seq<u8>>
    decreases s.len(),
{
    if s.len() == 0 {
        Some(Seq::empty())
    } else if s.len() == 1 {
        None
    } else {
        match (spec_hex_value(s[0]), spec_hex_value(s[1]), spec_from_hex(s.skip(2))) {
            (Some(hi), Some(lo), Some(rest)) => Some(seq![(hi * 16 + lo) as u8] + rest),
            _ => None,
        }
    }
}

/// Parsing undoes printing, for any byte sequence.
pub proof fn lemma_hex_round_trip(bytes: Seq<u8>)
    ensures
        spec_from_hex(spec_hex(bytes)) == Some(bytes),
    decreases bytes.len(),
{
    if bytes.len() == 0 {
        assert(spec_hex(bytes) =~= Seq::<char>::empty());
    } else {
        let rest = bytes.skip(1);
        lemma_hex_round_trip(rest);
        let b = bytes[0];
        let text = spec_hex(bytes);
        assert(text[0] == spec_hex_digit((b / 16) as int));
        assert(text[1] == spec_hex_digit((b % 16) as int));
        assert(text.skip(2) =~= spec_hex(rest));
        assert(spec_hex_value(spec_hex_digit((b / 16) as int)) == Some((b / 16) as int));
        assert(spec_hex_value(spec_hex_digit((b % 16) as int)) == Some((b % 16) as int));
        assert((b / 16) * 16 + (b % 16) == b) by (nonlinear_arith);
        assert(seq![b] + rest =~= bytes);
    }
}

/// A 32-byte SHA-256 digest: the content-addressing key of the object
/// store, and the link between a deployment and its artifact.
#[derive(Debug)]
pub struct Checksum {
    bytes: Vec<u8>,
}

impl View for Checksum {
    type V = Seq<u8>;

    closed spec fn view(&self) -> Seq<u8> {
        self.bytes@
    }
}

impl DeepView for Checksum {
    type V = Seq<u8>;

    open spec fn deep_view(&self) -> Seq<u8> {
        self.view()
    }
}

impl Clone for Checksum {
    /// Cloning keeps the digest.
    fn clone(&self) -> (r: Checksum)
        ensures
            r@ == self@,
    {
        let r = Checksum { bytes: self.bytes.clone() };
        proof {
            assert(r.bytes@ =~= self.bytes@);
        }
        r
    }
}

impl Checksum {
    /// A well-formed checksum holds exactly the digest length.
    pub open spec fn wf(self) -> bool {
        self@.len() == CHECKSUM_LEN
    }

    /// A checksum from raw digest bytes.
    pub fn from_bytes(bytes: Vec<u8>) -> (r: Result<Checksum, Error>)
        ensures
            r is Ok <==> bytes@.len() == CHECKSUM_LEN,
            r matches Ok(c) ==> c@ == bytes@ && c.wf(),
            r matches Err(e) ==> e matches Error::InvalidChecksumLength(n) && n == bytes@.len(),
    {
        if bytes.len() != CHECKSUM_LEN {
            return Err(Error::InvalidChecksumLength(bytes.len()));
        }
        Ok(Checksum { bytes })
    }

    /// The raw digest bytes.
    pub fn as_bytes(&self) -> (r: &Vec<u8>)
        ensures
            r@ == self@,
    {
        &self.bytes
    }

    /// Parse the lowercase (or uppercase) hex form: it must decode to
    /// exactly the digest length.
    pub fn from_str(input: &str) -> (r: Result<Checksum, Error>)
        ensures
            r is Ok <==> (spec_from_hex(input@) matches Some(b) && b.len() == CHECKSUM_LEN),
            r matches Ok(c) ==> Some(c@) == spec_from_hex(input@) && c.wf(),
            r matches Err(e) ==> (e is InvalidHexCharacter || e is InvalidChecksumLength),
    {
        let bytes = match from_hex(input) {
            Ok(bytes) => bytes,
            Err(e) => {
                return Err(e);
            },
        };
        Checksum::from_bytes(bytes)
    }

    /// The lowercase hex text of the digest.
    pub fn to_text(&self) -> (r: String)
        ensures
            r@ == spec_hex(self@),
    {
        to_hex(&self.bytes)
    }

    /// Whether two checksums hold the same digest.
    pub fn eq_checksum(&self, other: &Checksum) -> (r: bool)
        ensures
            r == (self@ == other@),
    {
        if self.bytes.len() != other.bytes.len() {
            proof {
                assert(self@.len() != other@.len());
            }
            return false;
        }
        let mut i: usize = 0;
        while i < self.bytes.len()
            invariant
                i <= self.bytes@.len(),
                self.bytes@.len() == other.bytes@.len(),
                forall|j: int| 0 <= j < i ==> self.bytes@[j] == other.bytes@[j],
            decreases self.bytes@.len() - i,
        {
            if self.bytes[i] != other.bytes[i] {
                return false;
            }
            i = i + 1;
        }
        proof {
            assert(self@ =~= other@);
        }
        true
    }
}

/// Parsing a checksum's own text gives the checksum back.
pub proof fn lemma_checksum_round_trip(c: Checksum)
    requires
        c.wf(),
    ensures
        spec_from_hex(spec_hex(c@)) == Some(c@),
        spec_from_hex(spec_hex(c@)).unwrap().len() == CHECKSUM_LEN,
{
    lemma_hex_round_trip(c@);
}

/// The lowercase hex text of a byte vector.
#[verifier::loop_isolation(false)]
pub fn to_hex(bytes: &Vec<u8>) -> (r: String)
    ensures
        r@ == spec_hex(bytes@),
{
    let mut out = String::new();
    proof {
        assert(bytes@.skip(0) =~= bytes@);
    }
    let mut i: usize = 0;
    while i < bytes.len()
        invariant
            i <= bytes@.len(),
            spec_hex(bytes@) == out@ + spec_hex(bytes@.skip(i as int)),
        decreases bytes@.len() - i,
    {
        let ghost suffix = bytes@.skip(i as int);
        proof {
            assert(suffix[0] == bytes@[i as int]);
            assert(suffix.skip(1) =~= bytes@.skip(i + 1));
        }
        let b = bytes[i];
        crate::text::push_char(&mut out, hex_digit(b / 16));
        crate::text::push_char(&mut out, hex_digit(b % 16));
        proof {
            assert(out@ + spec_hex(bytes@.skip(i + 1)) =~= spec_hex(bytes@));
        }
        i = i + 1;
    }
    proof {
        assert(bytes@.skip(bytes@.len() as int) =~= Seq::<u8>::empty());
        assert(out@ + Seq::<char>::empty() =~= out@);
    }
    out
}

/// The lowercase hex digit for a value below sixteen.
pub fn hex_digit(d: u8) -> (c: char)
    requires
        d < 16,
    ensures
        c == spec_hex_digit(d as int),
{
    match d {
        0 => '0',
        1 => '1',
        2 => '2',
        3 => '3',
        4 => '4',
        5 => '5',
        6 => '6',
        7 => '7',
        8 => '8',
        9 => '9',
        10 => 'a',
        11 => 'b',
        12 => 'c',
        13 => 'd',
        14 => 'e',
        _ => 'f',
    }
}

/// The value of a hex digit character, if it is one.
pub fn hex_value(c: char) -> (r: Option<u8>)
    ensures
        match r {
            Some(v) => Some(v as int) == spec_hex_value(c) && v < 16,
            None => spec_hex_value(c) is None,
        },
{
    match c {
        '0' => Some(0),
        '1' => Some(1),
        '2' => Some(2),
        '3' => Some(3),
        '4' => Some(4),
        '5' => Some(5),
        '6' => Some(6),
        '7' => Some(7),
        '8' => Some(8),
        '9' => Some(9),
        'a' | 'A' => Some(10),
        'b' | 'B' => Some(11),
        'c' | 'C' => Some(12),
        'd' | 'D' => Some(13),
        'e' | 'E' => Some(14),
        'f' | 'F' => Some(15),
        _ => None,
    }
}

/// Decode a hex text into bytes.
#[verifier::loop_isolation(false)]
pub fn from_hex(input: &str) -> (r: Result<Vec<u8>, Error>)
    ensures
        r is Ok <==> spec_from_hex(input@) is Some,
        r matches Ok(v) ==> Some(v@) == spec_from_hex(input@),
        r matches Err(e) ==> e is InvalidHexCharacter,
{
    let len = input.unicode_len();
    let mut out: Vec<u8> = Vec::new();
    proof {
        assert(input@.skip(0) =~= input@);
    }
    let mut i: usize = 0;
    while len - i >= 2
        invariant
            i <= len,
            i % 2 == 0,
            len == input@.len(),
            spec_from_hex(input@) == match spec_from_hex(input@.skip(i as int)) {
                Some(rest) => Some(out@ + rest),
                None => None::<Seq<u8>>,
            },
        decreases len - i,
    {
        let ghost suffix = input@.skip(i as int);
        proof {
            assert(suffix[0] == input@[i as int]);
            assert(suffix[1] == input@[i + 1]);
            assert(suffix.skip(2) =~= input@.skip(i + 2));
        }
        let hi = match hex_value(input.get_char(i)) {
            Some(hi) => hi,
            None => {
                return Err(Error::InvalidHexCharacter);
            },
        };
        let lo = match hex_value(input.get_char(i + 1)) {
            Some(lo) => lo,
            None => {
                return Err(Error::InvalidHexCharacter);
            },
        };
        let ghost pre = out@;
        out.push(hi * 16 + lo);
        proof {
            match spec_from_hex(input@.skip(i + 2)) {
                Some(rest) => {
                    assert(out@ + rest =~= pre + (seq![(hi * 16 + lo) as u8] + rest));
                },
                None => {},
            }
        }
        i = i + 2;
    }
    if i < len {
        // an odd final character can belong to no byte
        proof {
            assert(input@.skip(i as int).len() == 1);
        }
        return Err(Error::InvalidHexCharacter);
    }
    proof {
        assert(input@.skip(len as int) =~= Seq::<char>::empty());
        assert(out@ + Seq::<u8>::empty() =~= out@);
    }
    Ok(out)
}

} // verus!
