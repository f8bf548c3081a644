use core::cmp::Ordering;
use core::ops::{Add, Sub};

use vstd::prelude::*;

verus! {

/// The length of a TCP header without options.
pub const TCP_HEADER_LEN: usize = 20;

/// The length of the maximum segment size option.
pub const TCP_MSS_OPTION_LEN: usize = 4;

/// Bring the sum or difference of two 32-bit numbers back into 32 bits, modulo `2^32`.
pub open spec fn wrap(x: int) -> i32 {
    if x > i32::MAX {
        (x - 0x1_0000_0000) as i32
    } else if x < i32::MIN {
        (x + 0x1_0000_0000) as i32
    } else {
        x as i32
    }
}

/// A sequence number: a point on the circle of integers modulo `2^32`, kept as a signed number.
///
/// Of two points, the one that is reached from the other by going forward less than half
/// the circle is the later one.
#[derive(Debug, PartialEq, Eq, Clone, Copy, Structural)]
pub struct TcpSeqNumber(pub i32);

impl TcpSeqNumber {
    /// The point `n` steps forward.
    pub open spec fn plus(self, n: int) -> TcpSeqNumber {
        TcpSeqNumber(wrap(self.0 + n))
    }

    /// The point `n` steps back.
    pub open spec fn minus(self, n: int) -> TcpSeqNumber {
        TcpSeqNumber(wrap(self.0 - n))
    }

    /// How many steps forward of `other` this point lies; negative if it lies behind.
    pub open spec fn since(self, other: TcpSeqNumber) -> int {
        wrap(self.0 - other.0) as int
    }

    /// The point opposite to this one with respect to zero.
    pub open spec fn opposite(self) -> TcpSeqNumber {
        TcpSeqNumber(wrap(-self.0))
    }

    /// Return the point opposite to this one with respect to zero.
    pub fn negated(self) -> (seq: TcpSeqNumber)
        ensures
            seq == self.opposite(),
    {
        let zero: i32 = 0;
        TcpSeqNumber(zero.wrapping_sub(self.0))
    }
}

impl Default for TcpSeqNumber {
    fn default() -> (seq: TcpSeqNumber)
        ensures
            seq == TcpSeqNumber(0),
    {
        TcpSeqNumber(0)
    }
}

/// Going forward and looking back gives the distance gone.
pub proof fn law_plus_since(seq: TcpSeqNumber, n: int)
    requires
        0 <= n <= i32::MAX,
    ensures
        seq.plus(n).since(seq) == n,
{
}

/// Going forward in two legs is going forward once.
pub proof fn law_plus_plus(seq: TcpSeqNumber, n: int, m: int)
    requires
        0 <= n,
        0 <= m,
        n + m <= i32::MAX,
    ensures
        seq.plus(n).plus(m) == seq.plus(n + m),
{
}

/// A point that is not behind another is reached from it by going forward.
pub proof fn law_since_plus(seq: TcpSeqNumber, other: TcpSeqNumber)
    requires
        seq.since(other) >= 0,
    ensures
        other.plus(seq.since(other)) == seq,
{
}

impl Add<usize> for TcpSeqNumber {
    type Output = TcpSeqNumber;

    fn add(self, rhs: usize) -> (sum: TcpSeqNumber) {
        TcpSeqNumber(self.0.wrapping_add(rhs as i32))
    }
}

impl vstd::std_specs::ops::AddSpecImpl<usize> for TcpSeqNumber {
    open spec fn obeys_add_spec() -> bool {
        true
    }

    open spec fn add_req(self, rhs: usize) -> bool {
        rhs <= i32::MAX
    }

    open spec fn add_spec(self, rhs: usize) -> TcpSeqNumber {
        self.plus(rhs as int)
    }
}

impl Sub<usize> for TcpSeqNumber {
    type Output = TcpSeqNumber;

    fn sub(self, rhs: usize) -> (difference: TcpSeqNumber) {
        TcpSeqNumber(self.0.wrapping_sub(rhs as i32))
    }
}

impl vstd::std_specs::ops::SubSpecImpl<usize> for TcpSeqNumber {
    open spec fn obeys_sub_spec() -> bool {
        true
    }

    open spec fn sub_req(self, rhs: usize) -> bool {
        rhs <= i32::MAX
    }

    open spec fn sub_spec(self, rhs: usize) -> TcpSeqNumber {
        self.minus(rhs as int)
    }
}

impl Sub<TcpSeqNumber> for TcpSeqNumber {
    type Output = usize;

    fn sub(self, rhs: TcpSeqNumber) -> (distance: usize) {
        self.0.wrapping_sub(rhs.0) as usize
    }
}

impl vstd::std_specs::ops::SubSpecImpl<TcpSeqNumber> for TcpSeqNumber {
    open spec fn obeys_sub_spec() -> bool {
        true
    }

    open spec fn sub_req(self, rhs: TcpSeqNumber) -> bool {
        self.since(rhs) >= 0
    }

    open spec fn sub_spec(self, rhs: TcpSeqNumber) -> usize {
        self.since(rhs) as usize
    }
}

impl PartialOrd for TcpSeqNumber {
    fn partial_cmp(&self, other: &TcpSeqNumber) -> (order: Option<Ordering>) {
        let distance: i32 = self.0.wrapping_sub(other.0);
        if distance < 0 {
            Some(Ordering::Less)
        } else if distance == 0 {
            Some(Ordering::Equal)
        } else {
            Some(Ordering::Greater)
        }
    }
}

impl vstd::std_specs::cmp::PartialOrdSpecImpl for TcpSeqNumber {
    open spec fn obeys_partial_cmp_spec() -> bool {
        true
    }

    open spec fn partial_cmp_spec(&self, other: &TcpSeqNumber) -> Option<Ordering> {
        if self.since(*other) < 0 {
            Some(Ordering::Less)
        } else if self.since(*other) == 0 {
            Some(Ordering::Equal)
        } else {
            Some(Ordering::Greater)
        }
    }
}

/// The control flags of a segment.
#[derive(Debug, PartialEq, Eq, Clone, Copy, Structural)]
pub enum TcpControl {
    /// No flag but ACK.
    Plain,
    Psh,
    Syn,
    Fin,
    Rst,
}

impl TcpControl {
    /// The room that the flag takes in sequence space.
    pub open spec fn space(self) -> int {
        match self {
            TcpControl::Syn | TcpControl::Fin => 1,
            _ => 0,
        }
    }

    /// The flag with PSH, which does not affect the connection, taken out.
    pub open spec fn quashed(self) -> TcpControl {
        if self == TcpControl::Psh {
            TcpControl::Plain
        } else {
            self
        }
    }

    /// Return the length of the control flag, in terms of sequence space.
    pub fn len(self) -> (len: usize)
        ensures
            len == self.space(),
    {
        match self {
            TcpControl::Syn | TcpControl::Fin => 1,
            TcpControl::Rst | TcpControl::Psh | TcpControl::Plain => 0,
        }
    }

    /// Turn the PSH flag into no flag, and keep all other flags as is.
    pub fn quash_psh(self) -> (control: TcpControl)
        ensures
            control == self.quashed(),
    {
        match self {
            TcpControl::Psh => TcpControl::Plain,
            _ => self,
        }
    }
}

/// What a segment says: a [`TcpRepr`] with its payload taken as a sequence of octets.
#[verifier::ext_equal]
pub struct TcpSegment {
    pub src_port: u16,
    pub dst_port: u16,
    pub control: TcpControl,
    pub seq_number: TcpSeqNumber,
    pub ack_number: Option<TcpSeqNumber>,
    pub window_len: u16,
    pub max_seg_size: Option<u16>,
    pub payload: Seq<u8>,
}

impl TcpSegment {
    /// The room that the segment takes in sequence space.
    pub open spec fn space(self) -> int {
        self.payload.len() + self.control.space()
    }

    /// The length of the header, options included.
    pub open spec fn header_space(self) -> int {
        TCP_HEADER_LEN + if self.max_seg_size is Some {
            TCP_MSS_OPTION_LEN as int
        } else {
            0
        }
    }

    /// Whether the segment has no flags set (except PSH) and no data.
    pub open spec fn bare(self) -> bool {
        self.payload.len() == 0 && self.control.quashed() == TcpControl::Plain
    }
}

/// A high-level representation of a segment.
#[derive(Debug, PartialEq, Eq, Clone, Copy)]
pub struct TcpRepr<'a> {
    pub src_port: u16,
    pub dst_port: u16,
    pub control: TcpControl,
    pub seq_number: TcpSeqNumber,
    pub ack_number: Option<TcpSeqNumber>,
    pub window_len: u16,
    pub max_seg_size: Option<u16>,
    pub payload: &'a [u8],
}

impl<'a> View for TcpRepr<'a> {
    type V = TcpSegment;

    open spec fn view(&self) -> TcpSegment {
        TcpSegment {
            src_port: self.src_port,
            dst_port: self.dst_port,
            control: self.control,
            seq_number: self.seq_number,
            ack_number: self.ack_number,
            window_len: self.window_len,
            max_seg_size: self.max_seg_size,
            payload: self.payload@,
        }
    }
}

impl<'a> TcpRepr<'a> {
    /// Return the length of the header, options included.
    pub fn header_len(&self) -> (len: usize)
        ensures
            len == self@.header_space(),
    {
        match self.max_seg_size {
            Some(_) => TCP_HEADER_LEN + TCP_MSS_OPTION_LEN,
            None => TCP_HEADER_LEN,
        }
    }

    /// Return the length of the emitted segment, header and payload.
    pub fn buffer_len(&self) -> (len: usize)
        requires
            self@.header_space() + self@.payload.len() <= usize::MAX,
        ensures
            len == self@.header_space() + self@.payload.len(),
    {
        self.header_len() + self.payload.len()
    }

    /// Return the length of the segment, in terms of sequence space.
    pub fn segment_len(&self) -> (len: usize)
        requires
            self@.space() <= usize::MAX,
        ensures
            len == self@.space(),
    {
        self.payload.len() + self.control.len()
    }

    /// Return whether the segment has no flags set (except PSH) and no data.
    pub fn is_empty(&self) -> (yes: bool)
        ensures
            yes == self@.bare(),
    {
        self.payload.len() == 0 && self.control.quash_psh() == TcpControl::Plain
    }
}

/// Sequence numbers count modulo `2^32`: going forward, going back, looking back and turning around
/// are addition, subtraction and negation there.
pub proof fn law_sequence_numbers_go_around(seq: TcpSeqNumber, other: TcpSeqNumber, n: int)
    requires
        0 <= n <= i32::MAX,
    ensures
        (seq.plus(n).0 - (seq.0 + n)) % 0x1_0000_0000 == 0,
        (seq.minus(n).0 - (seq.0 - n)) % 0x1_0000_0000 == 0,
        (seq.since(other) - (seq.0 - other.0)) % 0x1_0000_0000 == 0,
        i32::MIN <= seq.since(other) <= i32::MAX,
        (seq.opposite().0 + seq.0) % 0x1_0000_0000 == 0,
        seq.plus(n).minus(n) == seq,
{
}

/// The operators on sequence numbers do what their names say, wherever the distance can be told.
pub proof fn law_operators_count(seq: TcpSeqNumber, other: TcpSeqNumber, n: usize)
    requires
        n <= i32::MAX,
    ensures
        vstd::std_specs::ops::AddSpec::add_req(seq, n),
        (vstd::std_specs::ops::AddSpec::add_spec(seq, n).0 - (seq.0 + n)) % 0x1_0000_0000 == 0,
        vstd::std_specs::ops::SubSpec::sub_req(seq, n),
        (vstd::std_specs::ops::SubSpec::sub_spec(seq, n).0 - (seq.0 - n)) % 0x1_0000_0000 == 0,
        seq.since(other) >= 0 ==> vstd::std_specs::ops::SubSpec::sub_req(seq, other)
            && vstd::std_specs::ops::SubSpec::sub_spec(seq, other) == seq.since(other),
{
}

/// Of two sequence numbers, the one that is less than half the circle ahead is the greater one.
pub proof fn law_later_is_greater(seq: TcpSeqNumber, other: TcpSeqNumber)
    ensures
        vstd::std_specs::cmp::PartialOrdSpec::partial_cmp_spec(&seq, &other) == Some(Ordering::Less)
            <==> seq.since(other) < 0,
        vstd::std_specs::cmp::PartialOrdSpec::partial_cmp_spec(&seq, &other) == Some(
            Ordering::Equal,
        ) <==> seq == other,
        vstd::std_specs::cmp::PartialOrdSpec::partial_cmp_spec(&seq, &other) == Some(
            Ordering::Greater,
        ) <==> seq.since(other) > 0,
{
}

/// SYN and FIN take one place in sequence space, no other flag takes any; PSH is the one flag that
/// can be left out.
pub proof fn law_flags(control: TcpControl)
    ensures
        control.space() == 1 <==> control == TcpControl::Syn || control == TcpControl::Fin,
        control.space() == 0 || control.space() == 1,
        control == TcpControl::Psh ==> control.quashed() == TcpControl::Plain,
        control != TcpControl::Psh ==> control.quashed() == control,
{
}

/// A segment takes a place in sequence space for each octet and for its flag, if it has one. Its
/// header takes twenty octets, and four more to announce the largest segment. It is bare if it has
/// neither an octet nor a flag but PSH.
pub proof fn law_segments_take_room(segment: TcpSegment)
    ensures
        segment.control == TcpControl::Syn || segment.control == TcpControl::Fin ==> segment.space()
            == segment.payload.len() + 1,
        segment.control == TcpControl::Plain || segment.control == TcpControl::Psh
            || segment.control == TcpControl::Rst ==> segment.space() == segment.payload.len(),
        segment.max_seg_size is None ==> segment.header_space() == 20,
        segment.max_seg_size is Some ==> segment.header_space() == 24,
        segment.bare() <==> segment.payload.len() == 0 && (segment.control == TcpControl::Plain
            || segment.control == TcpControl::Psh),
{
}

/// What a representation says is what it holds.
pub proof fn law_representations_say(repr: TcpRepr)
    ensures
        repr@.src_port == repr.src_port,
        repr@.dst_port == repr.dst_port,
        repr@.control == repr.control,
        repr@.seq_number == repr.seq_number,
        repr@.ack_number == repr.ack_number,
        repr@.window_len == repr.window_len,
        repr@.max_seg_size == repr.max_seg_size,
        repr@.payload == repr.payload@,
{
}

} // verus!
