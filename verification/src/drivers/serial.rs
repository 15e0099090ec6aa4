//! The 16550 UART: its register offsets, its start-up sequence and the bytes a string is
//! sent as.
use vstd::prelude::*;
use vstd::string::StringSliceAdditionalSpecFns;

verus! {

/// Line status register offset; bit 5 says the transmit holding register is empty.
pub const LINE_STATUS: u16 = 5;

/// The first COM port.
pub const COM1_BASE: u16 = 0x3F8;

/// The register writes that bring the port up at 38400 baud, 8n1, FIFOs on, as
/// (offset, value) pairs in the order they are made.
pub open spec fn init_writes() -> Seq<(u16, u8)> {
    seq![(1u16, 0x00u8), (3, 0x80), (0, 0x03), (1, 0x00), (3, 0x03), (2, 0xC7), (4, 0x0B)]
}

/// The bytes that go on the wire for `s`: each line feed is preceded by a carriage return.
pub open spec fn crlf_bytes(s: Seq<u8>) -> Seq<u8>
    decreases s.len(),
{
    if s.len() == 0 {
        Seq::empty()
    } else {
        let head = if s[0] == 0x0A {
            seq![0x0Du8, 0x0Au8]
        } else {
            seq![s[0]]
        };
        head + crlf_bytes(s.drop_first())
    }
}

/// `crlf_bytes` of a concatenation is the concatenation of the two.
pub proof fn lemma_crlf_bytes_append(a: Seq<u8>, b: Seq<u8>)
    ensures
        crlf_bytes(a + b) == crlf_bytes(a) + crlf_bytes(b),
    decreases a.len(),
{
    if a.len() == 0 {
        assert(a + b == b);
    } else {
        lemma_crlf_bytes_append(a.drop_first(), b);
        assert((a + b).drop_first() == a.drop_first() + b);
    }
}

/// `crlf_bytes` of a single byte.
pub proof fn lemma_crlf_bytes_one(x: u8)
    ensures
        crlf_bytes(seq![x]) == (if x == 0x0A {
            seq![0x0Du8, 0x0Au8]
        } else {
            seq![x]
        }),
{
    assert(seq![x].drop_first() == Seq::<u8>::empty());
    reveal_with_fuel(crlf_bytes, 2);
}

/// A UART at an I/O port base.
pub struct SerialPort {
    base: u16,
}

impl SerialPort {
    pub closed spec fn base_port(&self) -> u16 {
        self.base
    }

    pub fn new(base: u16) -> (r: Self)
        ensures
            r.base_port() == base,
    {
        Self { base }
    }

    /// The port's base address.
    pub fn base(&self) -> (r: u16)
        ensures
            r == self.base_port(),
    {
        self.base
    }

    /// The start-up writes as (port, value) pairs; the port is the base plus the register
    /// offset, which must not run past the top of the I/O space.
    pub fn init_sequence(&self) -> (r: Vec<(u16, u8)>)
        requires
            self.base_port() + 4 <= u16::MAX,
        ensures
            r@.len() == init_writes().len(),
            forall|i: int|
                #![trigger r@[i]]
                0 <= i < r@.len() ==> r@[i] == (
                    (self.base_port() + init_writes()[i].0) as u16,
                    init_writes()[i].1,
                ),
    {
        let b = self.base;
        let r = vec![
            (b + 1, 0x00u8),
            (b + 3, 0x80),
            (b, 0x03),
            (b + 1, 0x00),
            (b + 3, 0x03),
            (b + 2, 0xC7),
            (b + 4, 0x0B),
        ];
        assert(init_writes().len() == 7);
        r
    }

    /// The port that bytes are written to (offset 0).
    pub fn data_port(&self) -> (r: u16)
        ensures
            r == self.base_port(),
    {
        self.base
    }

    /// The line status port (offset 5).
    pub fn line_status_port(&self) -> (r: u16)
        requires
            self.base_port() + LINE_STATUS <= u16::MAX,
        ensures
            r == self.base_port() + LINE_STATUS,
    {
        self.base + LINE_STATUS
    }

    /// The bytes that writing `s` sends, in order: a carriage return before each line feed.
    pub fn write_str(&self, s: &str) -> (r: Vec<u8>)
        ensures
            r@ == crlf_bytes(s.spec_bytes()),
    {
        let bytes = s.as_bytes();
        let mut out: Vec<u8> = Vec::new();
        let mut i: usize = 0;
        while i < bytes.len()
            invariant
                i <= bytes@.len(),
                bytes@ == s.spec_bytes(),
                out@ == crlf_bytes(bytes@.subrange(0, i as int)),
            decreases bytes@.len() - i,
        {
            let byte = bytes[i];
            if byte == 0x0A {
                out.push(0x0D);
            }
            out.push(byte);
            proof {
                let prefix = bytes@.subrange(0, i as int);
                lemma_crlf_bytes_append(prefix, seq![byte]);
                lemma_crlf_bytes_one(byte);
                assert(bytes@.subrange(0, i + 1) == prefix + seq![byte]);
            }
            i = i + 1;
        }
        assert(bytes@.subrange(0, bytes@.len() as int) == bytes@);
        out
    }
}

/// Whether the line status byte says the transmitter can take another byte (bit 5).
pub fn transmit_empty(line_status: u8) -> (r: bool)
    ensures
        r == ((line_status / 32) % 2 == 1),
{
    let r = (line_status & 0x20) != 0;
    assert(r == ((line_status / 32) % 2 == 1)) by (bit_vector)
        requires
            r == ((line_status & 0x20) != 0),
    ;
    r
}

} // verus!
