use vstd::prelude::*;
use crate::wire::{le_u32, le_u64, push_le_u32, push_le_u64};

verus! {

/// Whether the IEEE 754 single with bit pattern `b` compares greater than zero:
/// sign bit clear, not zero, and not a NaN (`+inf` is positive).
pub open spec fn f32_bits_positive(b: u32) -> bool {
    0 < b && b <= 0x7F80_0000
}

/// One point of a range scan, in the order the scanner reported it.
/// Both values are IEEE 754 singles held as their bit patterns: the angle in
/// degrees and the distance in millimetres.
#[derive(Clone, Copy, Debug, PartialEq, Eq, Structural)]
pub struct ScanPoint {
    pub angle_bits: u32,
    pub distance_bits: u32,
}

/// The points of `s` that have a positive distance, in their order.
pub open spec fn kept_points(s: Seq<ScanPoint>) -> Seq<ScanPoint>
    decreases s.len(),
{
    if s.len() == 0 {
        seq![]
    } else {
        let rest = kept_points(s.drop_last());
        if f32_bits_positive(s.last().distance_bits) {
            rest.push(s.last())
        } else {
            rest
        }
    }
}

/// The wire bytes of a sequence of scan points: angle then distance, each as a
/// little-endian single.
pub open spec fn points_bytes(s: Seq<ScanPoint>) -> Seq<u8>
    decreases s.len(),
{
    if s.len() == 0 {
        seq![]
    } else {
        points_bytes(s.drop_last()) + le_u32(s.last().angle_bits) + le_u32(s.last().distance_bits)
    }
}

/// The wire form of a scan frame: the point count as a little-endian `u32`,
/// then the points.
pub open spec fn scan_wire(s: Seq<ScanPoint>) -> Seq<u8> {
    le_u32(s.len() as u32) + points_bytes(s)
}

/// A filtered range scan: every point has a positive distance.
pub struct ScanFrame {
    points: Vec<ScanPoint>,
}

impl View for ScanFrame {
    type V = Seq<ScanPoint>;

    closed spec fn view(&self) -> Seq<ScanPoint> {
        self.points@
    }
}

/// Builds the scan frame of a raw scan: the points whose distance is not
/// positive (the scanner's mark for no echo) are dropped, the others keep their
/// order.
pub fn encode_scan(reading: &Vec<ScanPoint>) -> (r: ScanFrame)
    ensures
        r@ == kept_points(reading@),
        forall|j: int| 0 <= j < r@.len() ==> f32_bits_positive(#[trigger] r@[j].distance_bits),
{
    let mut points: Vec<ScanPoint> = Vec::new();
    let mut i: usize = 0;
    while i < reading.len()
        invariant
            i <= reading@.len(),
            points@ == kept_points(reading@.subrange(0, i as int)),
        decreases reading@.len() - i,
    {
        let p = reading[i];
        proof {
            assert(reading@.subrange(0, i + 1).drop_last() =~= reading@.subrange(0, i as int));
        }
        if 0 < p.distance_bits && p.distance_bits <= 0x7F80_0000 {
            points.push(p);
        }
        i = i + 1;
    }
    assert(reading@.subrange(0, reading@.len() as int) =~= reading@);
    proof {
        lemma_scan_points_positive(reading@);
    }
    ScanFrame { points }
}

impl ScanFrame {
    /// The points of the frame.
    pub fn points(&self) -> (r: &Vec<ScanPoint>)
        ensures
            r@ == self@,
    {
        &self.points
    }

    /// The number of points.
    pub fn len(&self) -> (r: usize)
        ensures
            r == self@.len(),
    {
        self.points.len()
    }

    /// The bytes that carry the frame on the wire.
    pub fn wire_bytes(&self) -> (r: Vec<u8>)
        requires
            self@.len() <= u32::MAX,
        ensures
            r@ == scan_wire(self@),
            r@.len() == 4 + 8 * self@.len(),
    {
        let mut out: Vec<u8> = Vec::new();
        push_le_u32(&mut out, self.points.len() as u32);
        let mut i: usize = 0;
        while i < self.points.len()
            invariant
                i <= self@.len(),
                self@ == self.points@,
                out@ == le_u32(self@.len() as u32) + points_bytes(self@.subrange(0, i as int)),
            decreases self@.len() - i,
        {
            let p = self.points[i];
            proof {
                assert(self@.subrange(0, i + 1).drop_last() =~= self@.subrange(0, i as int));
            }
            push_le_u32(&mut out, p.angle_bits);
            push_le_u32(&mut out, p.distance_bits);
            proof {
                let s = self@.subrange(0, i + 1);
                assert(points_bytes(s) == points_bytes(self@.subrange(0, i as int)) + le_u32(
                    p.angle_bits,
                ) + le_u32(p.distance_bits));
                assert(out@ =~= le_u32(self@.len() as u32) + points_bytes(s));
            }
            i = i + 1;
        }
        assert(self@.subrange(0, self@.len() as int) =~= self@);
        proof {
            lemma_scan_wire_len(self@);
        }
        out
    }
}

/// Every point of an encoded scan has a positive distance: no point whose raw
/// distance is zero, negative or not a number reaches the frame.
pub proof fn lemma_scan_points_positive(s: Seq<ScanPoint>)
    ensures
        forall|j: int| 0 <= j < kept_points(s).len() ==> f32_bits_positive(
            #[trigger] kept_points(s)[j].distance_bits,
        ),
    decreases s.len(),
{
    if s.len() > 0 {
        lemma_scan_points_positive(s.drop_last());
        let rest = kept_points(s.drop_last());
        assert forall|j: int| 0 <= j < kept_points(s).len() implies f32_bits_positive(
            #[trigger] kept_points(s)[j].distance_bits,
        ) by {
            if j < rest.len() {
                assert(kept_points(s)[j] == rest[j]);
            }
        }
    }
}

/// A scan frame of `n` points takes `4 + 8 * n` bytes on the wire.
pub proof fn lemma_scan_wire_len(s: Seq<ScanPoint>)
    ensures
        scan_wire(s).len() == 4 + 8 * s.len(),
    decreases s.len(),
{
    lemma_points_bytes_len(s);
}

proof fn lemma_points_bytes_len(s: Seq<ScanPoint>)
    ensures
        points_bytes(s).len() == 8 * s.len(),
    decreases s.len(),
{
    if s.len() > 0 {
        lemma_points_bytes_len(s.drop_last());
    }
}

/// A compressed camera image.
pub struct ImageFrame {
    pub payload: Vec<u8>,
}

/// The wire form of an image frame: the payload length as a little-endian
/// `u64`, then the payload.
pub open spec fn image_wire(payload: Seq<u8>) -> Seq<u8> {
    le_u64(payload.len() as u64) + payload
}

impl ImageFrame {
    /// The bytes that carry the frame on the wire.
    pub fn wire_bytes(&self) -> (r: Vec<u8>)
        ensures
            r@ == image_wire(self.payload@),
    {
        let mut out: Vec<u8> = Vec::new();
        push_le_u64(&mut out, self.payload.len() as u64);
        let mut i: usize = 0;
        while i < self.payload.len()
            invariant
                i <= self.payload@.len(),
                out@ == le_u64(self.payload@.len() as u64) + self.payload@.subrange(0, i as int),
            decreases self.payload@.len() - i,
        {
            out.push(self.payload[i]);
            proof {
                assert(out@ =~= le_u64(self.payload@.len() as u64) + self.payload@.subrange(
                    0,
                    i + 1,
                ));
            }
            i = i + 1;
        }
        assert(self.payload@.subrange(0, self.payload@.len() as int) =~= self.payload@);
        out
    }
}

/// A position fix: latitude and longitude in degrees, as the bit patterns of
/// IEEE 754 singles.
#[derive(Clone, Copy, Debug, PartialEq, Eq, Structural)]
pub struct PositionFrame {
    pub latitude_bits: u32,
    pub longitude_bits: u32,
}

/// The wire form of a position frame: latitude then longitude, each a
/// little-endian single, with no prefix.
pub open spec fn position_wire(f: PositionFrame) -> Seq<u8> {
    le_u32(f.latitude_bits) + le_u32(f.longitude_bits)
}

impl PositionFrame {
    /// The eight bytes that carry the frame on the wire.
    pub fn wire_bytes(&self) -> (r: Vec<u8>)
        ensures
            r@ == position_wire(*self),
    {
        let mut out: Vec<u8> = Vec::new();
        push_le_u32(&mut out, self.latitude_bits);
        push_le_u32(&mut out, self.longitude_bits);
        out
    }
}

/// One record parsed from a line of the position receiver. Only a fix record
/// carries a resolved position.
#[derive(Clone, Copy, Debug, PartialEq, Eq, Structural)]
pub enum Sentence {
    Fix(PositionFrame),
    Other,
}

/// Whether `s` holds no fix record before index `k`.
pub open spec fn no_fix_before(s: Seq<Sentence>, k: int) -> bool {
    forall|j: int| 0 <= j < k ==> !(#[trigger] s[j] is Fix)
}

/// The position frame of the records parsed from one line: the position of
/// the first fix record, or none when the line holds no fix.
pub fn first_fix(sentences: &Vec<Sentence>) -> (r: Option<PositionFrame>)
    ensures
        r is None <==> no_fix_before(sentences@, sentences@.len() as int),
        r matches Some(f) ==> exists|k: int|
            0 <= k < sentences@.len() && no_fix_before(sentences@, k) && #[trigger] sentences@[k]
                == Sentence::Fix(f),
{
    let mut i: usize = 0;
    while i < sentences.len()
        invariant
            i <= sentences@.len(),
            no_fix_before(sentences@, i as int),
        decreases sentences@.len() - i,
    {
        if let Sentence::Fix(f) = sentences[i] {
            assert(sentences@[i as int] == Sentence::Fix(f));
            return Some(f);
        }
        i = i + 1;
    }
    None
}

} // verus!
