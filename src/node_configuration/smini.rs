//! Configuration of SMINIs.
use vstd::prelude::*;
use crate::packet::{Data, Error as PacketError};
use super::{InvalidConfigurationError, SminiConfigurationError as Error, NDP_SMINI};
use super::sic::be_u16;

verus! {

/// The number of oscillating pair bits.
pub const OSCILLATING_BITS: usize = 48;

/// Bit `k` (0 to 47) of the 48-bit number whose big-endian bytes are `pairs`.
pub open spec fn pair_bit(pairs: Seq<u8>, k: int) -> bool {
    (pairs[5 - k / 8] >> (k % 8) as u8) & 1u8 == 1u8
}

/// The length of the run of set bits that ends just below bit `b`.
pub open spec fn run_len(pairs: Seq<u8>, b: int) -> nat
    decreases b,
{
    if b <= 0 || !pair_bit(pairs, b - 1) {
        0
    } else {
        run_len(pairs, b - 1) + 1
    }
}

/// Whether every maximal run of set bits in the 48 bits of `pairs` has an even length: the
/// run ending below each unset bit, and below the top, is even.
pub open spec fn runs_even(pairs: Seq<u8>) -> bool {
    forall|b: int|
        0 <= b <= OSCILLATING_BITS && (b == OSCILLATING_BITS || !pair_bit(pairs, b)) ==> #[trigger] run_len(pairs, b) % 2 == 0
}

/// The number of set bits among bits 0 to `n - 1` of `pairs`.
pub open spec fn set_bits(pairs: Seq<u8>, n: int) -> nat
    decreases n,
{
    if n <= 0 {
        0
    } else {
        set_bits(pairs, n - 1) + if pair_bit(pairs, n - 1) {
            1nat
        } else {
            0nat
        }
    }
}

/// The number of oscillating pairs: half the set bits.
pub open spec fn pair_count(pairs: Seq<u8>) -> nat {
    set_bits(pairs, OSCILLATING_BITS as int) / 2
}

proof fn lemma_set_bits_bound(pairs: Seq<u8>, n: int)
    ensures
        set_bits(pairs, n) <= if n < 0 { 0 } else { n },
    decreases n,
{
    if n > 0 {
        lemma_set_bits_bound(pairs, n - 1);
    }
}

/// The packet error for a SMINI configuration error.
pub open spec fn smini_error(e: Error) -> PacketError {
    PacketError::InvalidConfiguration { source: InvalidConfigurationError::Smini { source: e } }
}

/// The encoding of a SMINI configuration: `M`, the transmit delay (big-endian), the number
/// of oscillating pairs, then the six pair bytes when there is at least one pair.
pub open spec fn smini_encoding(transmit_delay: u16, count: u8, pairs: Seq<u8>) -> Seq<u8> {
    let head = seq![NDP_SMINI, (transmit_delay >> 8u16) as u8, (transmit_delay & 0xffu16) as u8];
    if count == 0 {
        head.push(0u8)
    } else {
        head.push(count) + pairs
    }
}

/// What decoding `raw` as a SMINI gives: the transmit delay and oscillating pairs, or the
/// error. The recorded count only tells whether the pair bytes follow.
pub open spec fn smini_decoding(raw: Seq<u8>) -> Result<(u16, Seq<u8>), PacketError> {
    if raw.len() == 0 {
        Err(PacketError::TooShort)
    } else if raw[0] != NDP_SMINI {
        Err(PacketError::InvalidNodeType(raw[0]))
    } else if raw.len() < 4 || (raw[3] > 0 && raw.len() < 10) {
        Err(PacketError::TooShort)
    } else {
        let pairs = if raw[3] == 0 {
            Seq::new(6, |i: int| 0u8)
        } else {
            raw.subrange(4, 10)
        };
        if runs_even(pairs) {
            Ok((be_u16(raw[1], raw[2]), pairs))
        } else {
            Err(smini_error(Error::NonAdjacent))
        }
    }
}

/// Configuration of a SMINI node: 24 inputs, 48 outputs, and the output pairs that
/// oscillate.
#[derive(Clone, Copy, Debug, PartialEq, Eq, Hash)]
pub struct Configuration {
    transmit_delay: u16,
    oscillating_count: u8,
    oscillating_pairs: [u8; 6],
}

impl Configuration {
    /// The transmit delay.
    pub closed spec fn spec_transmit_delay(&self) -> u16 {
        self.transmit_delay
    }

    /// The oscillating pairs.
    pub closed spec fn spec_pairs(&self) -> Seq<u8> {
        self.oscillating_pairs@
    }

    /// The recorded number of oscillating pairs.
    pub closed spec fn spec_count(&self) -> u8 {
        self.oscillating_count
    }

    /// Six pair bytes whose runs of set bits are all even, with the count of pairs.
    pub open spec fn wf(&self) -> bool {
        &&& self.spec_pairs().len() == 6
        &&& runs_even(self.spec_pairs())
        &&& self.spec_count() == pair_count(self.spec_pairs())
    }

    /// The number of adjacent pairs of set bits in `oscillating_pairs`; fails with
    /// `NonAdjacent` when a run of set bits has an odd length.
    pub fn get_oscillating_pairs_count(oscillating_pairs: &[u8; 6]) -> (r: Result<u8, Error>)
        ensures
            runs_even(oscillating_pairs@) <==> r is Ok,
            r matches Ok(n) ==> n == pair_count(oscillating_pairs@),
            r matches Err(e) ==> e == Error::NonAdjacent,
    {
        let ghost p = oscillating_pairs@;
        let mut count: u8 = 0;
        let mut streak: usize = 0;
        let mut i: usize = 0;
        while i < OSCILLATING_BITS
            invariant
                p == oscillating_pairs@,
                p.len() == 6,
                i <= OSCILLATING_BITS,
                streak == run_len(p, i as int),
                count == set_bits(p, i as int),
                count <= i,
                streak <= i,
                forall|b: int| 0 <= b < i && !pair_bit(p, b) ==> #[trigger] run_len(p, b) % 2 == 0,
            decreases OSCILLATING_BITS - i,
        {
            proof {
                lemma_set_bits_bound(p, i as int);
            }
            let bit = (oscillating_pairs[5 - i / 8] >> (i % 8) as u8) & 1u8 == 1u8;
            if bit {
                count += 1;
                streak += 1;
            } else {
                if streak % 2 != 0 {
                    proof {
                        assert(!pair_bit(p, i as int) && run_len(p, i as int) % 2 != 0);
                    }
                    return Err(Error::NonAdjacent);
                }
                streak = 0;
            }
            i += 1;
        }
        if streak % 2 != 0 {
            proof {
                assert(run_len(p, OSCILLATING_BITS as int) % 2 != 0);
            }
            return Err(Error::NonAdjacent);
        }
        proof {
            assert forall|b: int|
                0 <= b <= OSCILLATING_BITS && (b == OSCILLATING_BITS || !pair_bit(p, b)) implies #[trigger] run_len(p, b) % 2 == 0 by {
            }
        }
        Ok(count / 2)
    }

    /// A configuration; fails with `NonAdjacent` when a run of set bits in
    /// `oscillating_pairs` has an odd length.
    pub fn try_new(transmit_delay: u16, oscillating_pairs: [u8; 6]) -> (r: Result<Configuration, Error>)
        ensures
            runs_even(oscillating_pairs@) <==> r is Ok,
            r matches Ok(c) ==> c.wf() && c.spec_transmit_delay() == transmit_delay && c.spec_pairs()
                == oscillating_pairs@,
            r matches Err(e) ==> e == Error::NonAdjacent,
    {
        let oscillating_count = Self::get_oscillating_pairs_count(&oscillating_pairs)?;
        Ok(Configuration { transmit_delay, oscillating_count, oscillating_pairs })
    }

    /// The oscillating pairs: card 0 ports A, B, C, then card 1 ports A, B, C.
    pub fn oscillating_pairs(&self) -> (r: [u8; 6])
        ensures
            r@ == self.spec_pairs(),
    {
        self.oscillating_pairs
    }

    /// The number of oscillating pairs.
    pub fn oscillating_count(&self) -> (r: u8)
        ensures
            r == self.spec_count(),
    {
        self.oscillating_count
    }

    /// The transmit delay, in units of 10 µs.
    pub fn transmit_delay(&self) -> (r: u16)
        ensures
            r == self.spec_transmit_delay(),
    {
        self.transmit_delay
    }

    /// The number of input bytes: always 3.
    pub fn input_bytes(&self) -> (r: u16)
        ensures
            r == 3,
    {
        3
    }

    /// The number of output bytes: always 6.
    pub fn output_bytes(&self) -> (r: u16)
        ensures
            r == 6,
    {
        6
    }

    /// Decode a configuration from the body of an initialization message.
    pub fn decode(raw: &[u8]) -> (r: Result<Configuration, PacketError>)
        ensures
            r matches Ok(c) ==> c.wf() && smini_decoding(raw@) == Ok::<(u16, Seq<u8>), PacketError>(
                (c.spec_transmit_delay(), c.spec_pairs()),
            ),
            r matches Err(e) ==> smini_decoding(raw@) == Err::<(u16, Seq<u8>), PacketError>(e),
    {
        if raw.len() == 0 {
            return Err(PacketError::TooShort);
        }
        if raw[0] != NDP_SMINI {
            return Err(PacketError::InvalidNodeType(raw[0]));
        }
        if raw.len() < 4 || (raw[3] > 0 && raw.len() < 10) {
            return Err(PacketError::TooShort);
        }
        let pairs: [u8; 6] = if raw[3] == 0 {
            [0u8; 6]
        } else {
            [raw[4], raw[5], raw[6], raw[7], raw[8], raw[9]]
        };
        proof {
            if raw@[3] == 0 {
                assert(pairs@ =~= Seq::new(6, |i: int| 0u8));
            } else {
                assert(pairs@ =~= raw@.subrange(4, 10));
            }
        }
        let transmit_delay = (raw[1] as u16) * 256 + raw[2] as u16;
        match Self::try_new(transmit_delay, pairs) {
            Ok(c) => Ok(c),
            Err(e) => Err(PacketError::InvalidConfiguration {
                source: InvalidConfigurationError::Smini { source: e },
            }),
        }
    }

    /// Encode the configuration as the body of an initialization message.
    pub fn encode(&self) -> (r: Data)
        ensures
            r.wf(),
            r@ == smini_encoding(self.spec_transmit_delay(), self.spec_count(), self.spec_pairs()),
    {
        let mut raw = Data::default();
        let _ = raw.push(NDP_SMINI);
        let _ = raw.push((self.transmit_delay >> 8u16) as u8);
        let _ = raw.push((self.transmit_delay & 0xffu16) as u8);
        if self.oscillating_count == 0 {
            let _ = raw.push(0);
        } else {
            let _ = raw.push(self.oscillating_count);
            let _ = raw.push(self.oscillating_pairs[0]);
            let _ = raw.push(self.oscillating_pairs[1]);
            let _ = raw.push(self.oscillating_pairs[2]);
            let _ = raw.push(self.oscillating_pairs[3]);
            let _ = raw.push(self.oscillating_pairs[4]);
            let _ = raw.push(self.oscillating_pairs[5]);
            proof {
                assert(raw@ =~= smini_encoding(self.spec_transmit_delay(), self.spec_count(), self.spec_pairs()));
            }
        }
        raw
    }
}

proof fn lemma_set_bits_parity(pairs: Seq<u8>, b: int)
    requires
        0 <= b <= OSCILLATING_BITS,
        forall|c: int| 0 <= c < b && !pair_bit(pairs, c) ==> #[trigger] run_len(pairs, c) % 2 == 0,
    ensures
        set_bits(pairs, b) % 2 == run_len(pairs, b) % 2,
    decreases b,
{
    if b > 0 {
        lemma_set_bits_parity(pairs, b - 1);
        if !pair_bit(pairs, b - 1) {
            assert(run_len(pairs, b - 1) % 2 == 0);
        }
    }
}

proof fn lemma_no_set_bits(pairs: Seq<u8>, n: int)
    requires
        0 <= n,
        set_bits(pairs, n) == 0,
    ensures
        forall|k: int| 0 <= k < n ==> !pair_bit(pairs, k),
    decreases n,
{
    if n > 0 {
        lemma_no_set_bits(pairs, n - 1);
    }
}

proof fn lemma_zero_byte(pairs: Seq<u8>, j: int)
    requires
        pairs.len() == 6,
        0 <= j < 6,
        forall|k: int| 0 <= k < OSCILLATING_BITS ==> !pair_bit(pairs, k),
    ensures
        pairs[j] == 0,
{
    let b = pairs[j];
    let base = 8 * (5 - j);
    assert(!pair_bit(pairs, base));
    assert(!pair_bit(pairs, base + 1));
    assert(!pair_bit(pairs, base + 2));
    assert(!pair_bit(pairs, base + 3));
    assert(!pair_bit(pairs, base + 4));
    assert(!pair_bit(pairs, base + 5));
    assert(!pair_bit(pairs, base + 6));
    assert(!pair_bit(pairs, base + 7));
    assert((base + 1) / 8 == 5 - j && (base + 1) % 8 == 1);
    assert((base + 2) / 8 == 5 - j && (base + 2) % 8 == 2);
    assert((base + 3) / 8 == 5 - j && (base + 3) % 8 == 3);
    assert((base + 4) / 8 == 5 - j && (base + 4) % 8 == 4);
    assert((base + 5) / 8 == 5 - j && (base + 5) % 8 == 5);
    assert((base + 6) / 8 == 5 - j && (base + 6) % 8 == 6);
    assert((base + 7) / 8 == 5 - j && (base + 7) % 8 == 7);
    assert(base / 8 == 5 - j && base % 8 == 0);
    assert(((b >> 0u8) & 1u8 != 1u8 && (b >> 1u8) & 1u8 != 1u8 && (b >> 2u8) & 1u8 != 1u8 && (b >> 3u8)
        & 1u8 != 1u8 && (b >> 4u8) & 1u8 != 1u8 && (b >> 5u8) & 1u8 != 1u8 && (b >> 6u8) & 1u8 != 1u8 && (b
        >> 7u8) & 1u8 != 1u8) ==> b == 0) by (bit_vector);
}

/// Decoding the encoding of valid oscillating pairs gives them back, with the transmit
/// delay: the pair bytes are left out only when there is no pair, and then every bit is
/// clear.
pub proof fn lemma_smini_round_trip(transmit_delay: u16, pairs: Seq<u8>)
    requires
        pairs.len() == 6,
        runs_even(pairs),
    ensures
        smini_decoding(smini_encoding(transmit_delay, pair_count(pairs) as u8, pairs)) == Ok::<
            (u16, Seq<u8>),
            PacketError,
        >((transmit_delay, pairs)),
{
    super::sic::lemma_be_u16(transmit_delay);
    lemma_set_bits_bound(pairs, OSCILLATING_BITS as int);
    let raw = smini_encoding(transmit_delay, pair_count(pairs) as u8, pairs);
    if pair_count(pairs) == 0 {
        lemma_set_bits_parity(pairs, OSCILLATING_BITS as int);
        assert(run_len(pairs, OSCILLATING_BITS as int) % 2 == 0);
        assert(set_bits(pairs, OSCILLATING_BITS as int) == 0);
        lemma_no_set_bits(pairs, OSCILLATING_BITS as int);
        assert forall|j: int| 0 <= j < 6 implies pairs[j] == 0 by {
            lemma_zero_byte(pairs, j);
        }
        assert(pairs =~= Seq::new(6, |i: int| 0u8));
    } else {
        assert(raw.subrange(4, 10) =~= pairs);
    }
}

/// Every SMINI configuration built by this library has every maximal run of set bits in
/// its oscillating pairs of even length, and records half the set bits as its count.
pub proof fn lemma_smini_invariant(c: Configuration)
    requires
        c.wf(),
    ensures
        forall|b: int|
            0 <= b <= OSCILLATING_BITS && (b == OSCILLATING_BITS || !pair_bit(c.spec_pairs(), b))
                ==> #[trigger] run_len(c.spec_pairs(), b) % 2 == 0,
        c.spec_count() as nat == set_bits(c.spec_pairs(), OSCILLATING_BITS as int) / 2,
{
}

} // verus!
