//! Configuration of CPNODEs and CPMEGAs.
use vstd::prelude::*;
use crate::packet::{Data, Error as PacketError};
use super::{CpConfigurationError as Error, InvalidConfigurationError, NDP_CPMEGA, NDP_CPNODE};
use super::sic::{be_u16, lemma_be_u16};

verus! {

/// The 16-bit options word of a CPNODE or CPMEGA. Bits without a name are kept as they are.
#[derive(Clone, Copy, Debug, PartialEq, Eq, Hash)]
pub struct CpOptions {
    bits: u16,
}

/// The options of a CPNODE.
pub type CpnodeOptions = CpOptions;

/// The options of a CPMEGA.
pub type CpmegaOptions = CpOptions;

impl View for CpOptions {
    type V = u16;

    closed spec fn view(&self) -> u16 {
        self.bits
    }
}

impl CpOptions {
    /// Option bit 0.
    pub const USE_CMRIX: u16 = 1;
    /// The node can send back an empty receive data packet if no inputs changed.
    pub const CAN_SEND_EOT_ON_NO_INPUTS_CHANGED: u16 = 2;
    /// Option bit 2.
    pub const USE_BCC: u16 = 4;

    /// The options whose word is `bits`, every bit kept.
    pub fn from_bits_retain(bits: u16) -> (r: CpOptions)
        ensures
            r@ == bits,
    {
        CpOptions { bits }
    }

    /// The options word.
    pub fn bits(&self) -> (r: u16)
        ensures
            r == self@,
    {
        self.bits
    }

    /// Whether every bit of `bits` is set.
    pub fn contains(&self, bits: u16) -> (r: bool)
        ensures
            r == (self@ & bits == bits),
    {
        self.bits & bits == bits
    }
}

impl Default for CpOptions {
    fn default() -> (r: CpOptions)
        ensures
            r@ == 0,
    {
        CpOptions { bits: 0 }
    }
}

/// The packet error for a CPNODE or CPMEGA configuration error.
pub open spec fn cp_error(e: Error) -> PacketError {
    PacketError::InvalidConfiguration { source: InvalidConfigurationError::Cp { source: e } }
}

/// The number of input and output bits of a node with these byte counts.
pub open spec fn io_bits(input_bytes: u8, output_bytes: u8) -> int {
    (input_bytes + output_bytes) * 8
}

/// The encoding of a CPNODE or CPMEGA configuration: the node description parameter, the
/// transmit delay (big-endian), the options (little-endian), the input and output byte
/// counts, then six reserved 0xFF bytes.
pub open spec fn cp_encoding(ndp: u8, transmit_delay: u16, options: u16, input_bytes: u8, output_bytes: u8) -> Seq<u8> {
    seq![ndp, (transmit_delay >> 8u16) as u8, (transmit_delay & 0xffu16) as u8, (options & 0xffu16) as u8, (options >> 8u16) as u8, input_bytes, output_bytes, 0xffu8, 0xffu8, 0xffu8, 0xffu8, 0xffu8, 0xffu8]
}

/// What decoding `raw` as a node with description parameter `ndp` and bit range
/// `min_bits` to `max_bits` gives: transmit delay, options, input and output bytes, or the
/// error.
pub open spec fn cp_decoding(ndp: u8, min_bits: u8, max_bits: u8, raw: Seq<u8>) -> Result<(u16, u16, u8, u8), PacketError> {
    if raw.len() == 0 {
        Err(PacketError::TooShort)
    } else if raw[0] != ndp {
        Err(PacketError::InvalidNodeType(raw[0]))
    } else if raw.len() < 7 {
        Err(PacketError::TooShort)
    } else if !(min_bits <= io_bits(raw[5], raw[6]) <= max_bits) {
        Err(cp_error(Error::InvalidInputOutputBitsCount(io_bits(raw[5], raw[6]) as u16, min_bits, max_bits)))
    } else {
        Ok((be_u16(raw[1], raw[2]), be_u16(raw[4], raw[3]), raw[5], raw[6]))
    }
}

/// Configuration of a node with description parameter `NDP` whose input and output bits
/// together lie from `MIN_BITS` to `MAX_BITS`.
#[derive(Clone, Copy, Debug, PartialEq, Eq, Hash)]
pub struct CpConfiguration<const NDP: u8, const MIN_BITS: u8, const MAX_BITS: u8> {
    transmit_delay: u16,
    options: CpOptions,
    input_bytes: u8,
    output_bytes: u8,
}

/// Configuration of a CPNODE: 16 to 144 input and output bits.
pub type CpnodeConfiguration = CpConfiguration<67, 16, 144>;

/// Configuration of a CPMEGA: 0 to 192 input and output bits.
pub type CpmegaConfiguration = CpConfiguration<79, 0, 192>;

impl<const NDP: u8, const MIN_BITS: u8, const MAX_BITS: u8> CpConfiguration<NDP, MIN_BITS, MAX_BITS> {
    /// The transmit delay.
    pub closed spec fn spec_transmit_delay(&self) -> u16 {
        self.transmit_delay
    }

    /// The options word.
    pub closed spec fn spec_options(&self) -> u16 {
        self.options@
    }

    /// The number of input bytes.
    pub closed spec fn spec_input_bytes(&self) -> u8 {
        self.input_bytes
    }

    /// The number of output bytes.
    pub closed spec fn spec_output_bytes(&self) -> u8 {
        self.output_bytes
    }

    /// The input and output bits lie in the range of the node kind.
    pub open spec fn wf(&self) -> bool {
        MIN_BITS <= io_bits(self.spec_input_bytes(), self.spec_output_bytes()) <= MAX_BITS
    }

    /// A configuration; fails with `InvalidInputOutputBitsCount` unless
    /// `(input_bytes + output_bytes) * 8` lies in the range of the node kind.
    pub fn try_new(transmit_delay: u16, options: CpOptions, input_bytes: u8, output_bytes: u8) -> (r: Result<Self, Error>)
        ensures
            MIN_BITS <= io_bits(input_bytes, output_bytes) <= MAX_BITS <==> r is Ok,
            r matches Ok(c) ==> c.wf() && c.spec_transmit_delay() == transmit_delay && c.spec_options()
                == options@ && c.spec_input_bytes() == input_bytes && c.spec_output_bytes() == output_bytes,
            r matches Err(e) ==> e == Error::InvalidInputOutputBitsCount(
                io_bits(input_bytes, output_bytes) as u16,
                MIN_BITS,
                MAX_BITS,
            ),
    {
        let bits: u16 = (input_bytes as u16 + output_bytes as u16) * 8;
        if bits < MIN_BITS as u16 || bits > MAX_BITS as u16 {
            return Err(Error::InvalidInputOutputBitsCount(bits, MIN_BITS, MAX_BITS));
        }
        Ok(CpConfiguration { transmit_delay, options, input_bytes, output_bytes })
    }

    /// The options.
    pub fn options(&self) -> (r: CpOptions)
        ensures
            r@ == self.spec_options(),
    {
        self.options
    }

    /// The transmit delay, in units of 10 µs.
    pub fn transmit_delay(&self) -> (r: u16)
        ensures
            r == self.spec_transmit_delay(),
    {
        self.transmit_delay
    }

    /// The number of input bytes.
    pub fn input_bytes(&self) -> (r: u16)
        ensures
            r == self.spec_input_bytes(),
    {
        self.input_bytes as u16
    }

    /// The number of output bytes.
    pub fn output_bytes(&self) -> (r: u16)
        ensures
            r == self.spec_output_bytes(),
    {
        self.output_bytes as u16
    }

    /// Decode a configuration from the body of an initialization message.
    pub fn decode(raw: &[u8]) -> (r: Result<Self, PacketError>)
        ensures
            r matches Ok(c) ==> c.wf() && cp_decoding(NDP, MIN_BITS, MAX_BITS, raw@) == Ok::<
                (u16, u16, u8, u8),
                PacketError,
            >((c.spec_transmit_delay(), c.spec_options(), c.spec_input_bytes(), c.spec_output_bytes())),
            r matches Err(e) ==> cp_decoding(NDP, MIN_BITS, MAX_BITS, raw@) == Err::<
                (u16, u16, u8, u8),
                PacketError,
            >(e),
    {
        if raw.len() == 0 {
            return Err(PacketError::TooShort);
        }
        if raw[0] != NDP {
            return Err(PacketError::InvalidNodeType(raw[0]));
        }
        if raw.len() < 7 {
            return Err(PacketError::TooShort);
        }
        let transmit_delay = (raw[1] as u16) * 256 + raw[2] as u16;
        let options = CpOptions::from_bits_retain((raw[4] as u16) * 256 + raw[3] as u16);
        match Self::try_new(transmit_delay, options, raw[5], raw[6]) {
            Ok(c) => Ok(c),
            Err(e) => Err(PacketError::InvalidConfiguration { source: InvalidConfigurationError::Cp { source: e } }),
        }
    }

    /// Encode the configuration as the body of an initialization message.
    pub fn encode(&self) -> (r: Data)
        ensures
            r.wf(),
            r@ == cp_encoding(
                NDP,
                self.spec_transmit_delay(),
                self.spec_options(),
                self.spec_input_bytes(),
                self.spec_output_bytes(),
            ),
    {
        let options = self.options.bits();
        let mut raw = Data::default();
        let _ = raw.push(NDP);
        let _ = raw.push((self.transmit_delay >> 8u16) as u8);
        let _ = raw.push((self.transmit_delay & 0xffu16) as u8);
        let _ = raw.push((options & 0xffu16) as u8);
        let _ = raw.push((options >> 8u16) as u8);
        let _ = raw.push(self.input_bytes);
        let _ = raw.push(self.output_bytes);
        let mut i: usize = 0;
        while i < 6
            invariant
                i <= 6,
                raw.wf(),
                raw@ == seq![NDP, (self.spec_transmit_delay() >> 8u16) as u8, (self.spec_transmit_delay() & 0xffu16) as u8, (self.spec_options() & 0xffu16) as u8, (self.spec_options() >> 8u16) as u8, self.spec_input_bytes(), self.spec_output_bytes()]
                    + Seq::new(i as nat, |k: int| 0xffu8),
            decreases 6 - i,
        {
            let _ = raw.push(0xff);
            i += 1;
            proof {
                assert(raw@ =~= seq![NDP, (self.spec_transmit_delay() >> 8u16) as u8, (self.spec_transmit_delay() & 0xffu16) as u8, (self.spec_options() & 0xffu16) as u8, (self.spec_options() >> 8u16) as u8, self.spec_input_bytes(), self.spec_output_bytes()]
                    + Seq::new(i as nat, |k: int| 0xffu8));
            }
        }
        proof {
            assert(raw@ =~= cp_encoding(NDP, self.spec_transmit_delay(), self.spec_options(), self.spec_input_bytes(), self.spec_output_bytes()));
        }
        raw
    }
}

/// Decoding the encoding of a configuration whose bits lie in the range gives the
/// configuration back.
pub proof fn lemma_cp_round_trip(ndp: u8, min_bits: u8, max_bits: u8, transmit_delay: u16, options: u16, input_bytes: u8, output_bytes: u8)
    requires
        min_bits <= io_bits(input_bytes, output_bytes) <= max_bits,
    ensures
        cp_decoding(ndp, min_bits, max_bits, cp_encoding(ndp, transmit_delay, options, input_bytes, output_bytes))
            == Ok::<(u16, u16, u8, u8), PacketError>((transmit_delay, options, input_bytes, output_bytes)),
{
    lemma_be_u16(transmit_delay);
    lemma_be_u16(options);
}

/// Every CPNODE or CPMEGA configuration built by this library has
/// `8 * (input_bytes + output_bytes)` in the range of its kind: 16 to 144 for a CPNODE, 0 to
/// 192 for a CPMEGA.
pub proof fn lemma_cp_invariant(node: CpnodeConfiguration, mega: CpmegaConfiguration)
    requires
        node.wf(),
        mega.wf(),
    ensures
        16 <= 8 * (node.spec_input_bytes() + node.spec_output_bytes()) <= 144,
        0 <= 8 * (mega.spec_input_bytes() + mega.spec_output_bytes()) <= 192,
{
}

} // verus!
