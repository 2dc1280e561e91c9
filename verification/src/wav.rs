//! The recording: WAV headers, windows of PCM, and where to cut them.
//!
//! pw-record finalises WAV lengths only on exit, so the lengths in the header
//! of a running recording are not believed; the length of the file is.

use vstd::prelude::*;
use vstd::slice::{slice_subrange, slice_to_vec};

verus! {

/// Bytes per second of 16 kHz mono 16-bit PCM.
pub const BYTES_PER_SECOND: u64 = 32000;

/// The most PCM that one window holds: fifteen seconds.
pub const WINDOW_BYTES: u64 = 480000;

/// A chunk header that starts beyond this byte is not looked at.
pub const HEADER_LIMIT: u64 = 65536;

/// As much of the start of a file as the search for its PCM ever reads: a chunk
/// header at the limit and the format fields behind it.
pub const HEAD_BYTES: u64 = 65560;

/// A segment is never cut shorter than this: a second and a half.
pub const SEGMENT_MIN: usize = 48000;

/// A segment is cut here at the latest: four seconds.
pub const SEGMENT_MAX: usize = 128000;

/// A pause is this many bytes of quiet samples: 160 ms.
pub const PAUSE_BYTES: usize = 5120;

/// Why a capture is refused.
#[derive(Clone, Copy, Debug, PartialEq, Eq, Structural)]
pub enum WavFault {
    /// No RIFF WAV header.
    NotRiff,
    /// No PCM within the header limit.
    HeaderTooLarge,
    /// PCM, but not announced as 16 kHz mono PCM16.
    WrongFormat,
    /// A format chunk too short to hold the format.
    ShortFormat,
}

/// A stretch of the PCM in a file.
#[derive(Clone, Copy, Debug, PartialEq, Eq, Structural)]
pub struct Span {
    /// Where in the file the stretch begins.
    pub offset: u64,
    /// Where in the PCM it begins.
    pub start: u64,
    /// Where in the PCM it ends.
    pub end: u64,
}

/// A stretch of PCM with its bytes.
pub struct Frame {
    pub pcm: Vec<u8>,
    pub start: u64,
    pub end: u64,
}

/// The four bytes of `n`, least significant first.
pub open spec fn le32(n: int) -> Seq<u8> {
    seq![
        (n % 256) as u8,
        (n / 256 % 256) as u8,
        (n / 65536 % 256) as u8,
        (n / 16777216 % 256) as u8,
    ]
}

/// The number in the four bytes from `at` on, least significant first.
pub open spec fn le32_at(bytes: Seq<u8>, at: int) -> int {
    bytes[at] + bytes[at + 1] * 256 + bytes[at + 2] * 65536 + bytes[at + 3] * 16777216
}

/// The bytes from `at` on begin with the four-character `tag`.
pub open spec fn tag_at(bytes: Seq<u8>, at: int, a: u8, b: u8, c: u8, d: u8) -> bool {
    bytes[at] == a && bytes[at + 1] == b && bytes[at + 2] == c && bytes[at + 3] == d
}

/// The sixteen format bytes from `at` on announce 16 kHz mono PCM16.
pub open spec fn format_at(bytes: Seq<u8>, at: int) -> bool {
    &&& bytes[at] == 1 && bytes[at + 1] == 0
    &&& bytes[at + 2] == 1 && bytes[at + 3] == 0
    &&& le32_at(bytes, at + 4) == 16000
    &&& bytes[at + 12] == 2 && bytes[at + 13] == 0
    &&& bytes[at + 14] == 16 && bytes[at + 15] == 0
}

/// Where the PCM of a file of `length` bytes begins, looking from the chunk at
/// `position` on: `None` while the chunks read so far do not reach it.
/// `supported` is whether the last format chunk announced what is expected.
pub open spec fn pcm_offset(
    head: Seq<u8>,
    length: int,
    position: int,
    supported: bool,
) -> Result<Option<int>, WavFault>
    decreases if position > HEADER_LIMIT { 0 } else { HEADER_LIMIT + 1 - position },
{
    let size = le32_at(head, position + 4);
    let data = position + 8;
    if position > HEADER_LIMIT {
        Err(WavFault::HeaderTooLarge)
    } else if data > length {
        Ok(None)
    } else if tag_at(head, position, 0x64, 0x61, 0x74, 0x61) {
        // "data"
        if supported {
            Ok(Some(data))
        } else {
            Err(WavFault::WrongFormat)
        }
    } else if data + size > length {
        Ok(None)
    } else if tag_at(head, position, 0x66, 0x6d, 0x74, 0x20) {
        // "fmt "
        if size < 16 {
            Err(WavFault::ShortFormat)
        } else {
            pcm_offset(head, length, data + size + size % 2, format_at(head, data))
        }
    } else {
        pcm_offset(head, length, data + size + size % 2, supported)
    }
}

/// The file begins with a RIFF WAV header.
pub open spec fn riff_wave(head: Seq<u8>) -> bool {
    // "RIFF" and "WAVE"
    tag_at(head, 0, 0x52, 0x49, 0x46, 0x46) && tag_at(head, 8, 0x57, 0x41, 0x56, 0x45)
}

/// The end of the window that begins at `start`, in PCM of `available` bytes:
/// whole samples only, and at most one window's worth.
pub open spec fn window_end(available: int, start: int) -> int {
    let whole = available - available % 2;
    if whole <= start + WINDOW_BYTES {
        whole
    } else {
        start + WINDOW_BYTES
    }
}

/// The window of PCM from `start` on, of a file of `length` bytes that begins
/// with `head`: `None` where there is none yet.
pub open spec fn pcm_window(head: Seq<u8>, length: int, start: int) -> Result<
    Option<Span>,
    WavFault,
> {
    if length < 44 {
        Ok(None)
    } else if !riff_wave(head) {
        Err(WavFault::NotRiff)
    } else {
        match pcm_offset(head, length, 12, false) {
            Err(fault) => Err(fault),
            Ok(None) => Ok(None),
            Ok(Some(data)) => {
                let end = window_end(length - data, start);
                if end <= start {
                    Ok(None)
                } else {
                    Ok(
                        Some(
                            Span {
                                offset: (data + start) as u64,
                                start: start as u64,
                                end: end as u64,
                            },
                        ),
                    )
                }
            },
        }
    }
}

fn read_le32(bytes: &[u8], at: usize) -> (n: u64)
    requires
        at + 4 <= bytes@.len(),
    ensures
        n == le32_at(bytes@, at as int),
        n <= u32::MAX,
{
    bytes[at] as u64 + bytes[at + 1] as u64 * 256 + bytes[at + 2] as u64 * 65536 + bytes[at
        + 3] as u64 * 16777216
}

fn has_tag(bytes: &[u8], at: usize, a: u8, b: u8, c: u8, d: u8) -> (r: bool)
    requires
        at + 4 <= bytes@.len(),
    ensures
        r == tag_at(bytes@, at as int, a, b, c, d),
{
    bytes[at] == a && bytes[at + 1] == b && bytes[at + 2] == c && bytes[at + 3] == d
}

fn has_format(bytes: &[u8], at: usize) -> (r: bool)
    requires
        at + 16 <= bytes@.len(),
    ensures
        r == format_at(bytes@, at as int),
{
    bytes[at] == 1 && bytes[at + 1] == 0 && bytes[at + 2] == 1 && bytes[at + 3] == 0 && read_le32(
        bytes,
        at + 4,
    ) == 16000 && bytes[at + 12] == 2 && bytes[at + 13] == 0 && bytes[at + 14] == 16 && bytes[at
        + 15] == 0
}

/// Finds the window of PCM from `start` on, in a file of `length` bytes whose
/// first bytes are `head`. Only headers are parsed, so `head` may stop at
/// `HEAD_BYTES`.
pub fn locate_pcm(head: &[u8], length: u64, start: u64) -> (span: Result<Option<Span>, WavFault>)
    requires
        head@.len() >= length || head@.len() >= HEAD_BYTES,
        start <= u64::MAX - WINDOW_BYTES,
    ensures
        span == pcm_window(head@, length as int, start as int),
{
    if length < 44 {
        return Ok(None);
    }
    if !(has_tag(head, 0, 0x52, 0x49, 0x46, 0x46) && has_tag(head, 8, 0x57, 0x41, 0x56, 0x45)) {
        return Err(WavFault::NotRiff);
    }
    let mut position: u64 = 12;
    let mut supported = false;
    loop
        invariant
            head@.len() >= length || head@.len() >= HEAD_BYTES,
            12 <= position <= HEADER_LIMIT + 8 + u32::MAX + 1,
            44 <= length,
            start <= u64::MAX - WINDOW_BYTES,
            riff_wave(head@),
            pcm_offset(head@, length as int, 12, false) == pcm_offset(
                head@,
                length as int,
                position as int,
                supported,
            ),
        decreases
                if position > HEADER_LIMIT {
                    0
                } else {
                    HEADER_LIMIT + 1 - position
                },
    {
        if position > HEADER_LIMIT {
            return Err(WavFault::HeaderTooLarge);
        }
        if position + 8 > length {
            return Ok(None);
        }
        let at: usize = position as usize;
        let size = read_le32(head, at + 4);
        let data = position + 8;
        if has_tag(head, at, 0x64, 0x61, 0x74, 0x61) {
            if !supported {
                return Err(WavFault::WrongFormat);
            }
            let available = length - data;
            let whole = available - available % 2;
            let end = if whole <= start + WINDOW_BYTES {
                whole
            } else {
                start + WINDOW_BYTES
            };
            if end <= start {
                return Ok(None);
            }
            return Ok(Some(Span { offset: data + start, start, end }));
        }
        if data + size > length {
            return Ok(None);
        }
        if has_tag(head, at, 0x66, 0x6d, 0x74, 0x20) {
            if size < 16 {
                return Err(WavFault::ShortFormat);
            }
            supported = has_format(head, at + 8);
        }
        position = data + size + size % 2;
    }
}

impl Frame {
    /// The frame holds as many bytes as it spans.
    pub open spec fn well_formed(self) -> bool {
        self.start <= self.end && self.pcm@.len() == self.end - self.start
    }

    /// Whether the frame holds as many bytes as it spans.
    pub fn is_whole(&self) -> (r: bool)
        ensures
            r == self.well_formed(),
    {
        self.start <= self.end && self.pcm.len() as u64 == self.end - self.start
    }

    /// Keeps the first `cut` bytes of the frame.
    pub fn cut_to(self, cut: usize) -> (frame: Frame)
        requires
            self.well_formed(),
            cut <= self.pcm@.len(),
        ensures
            frame.well_formed(),
            frame.pcm@ == self.pcm@.take(cut as int),
            frame.start == self.start,
            frame.end == self.start + cut,
    {
        let mut pcm = self.pcm;
        pcm.truncate(cut);
        Frame { pcm, start: self.start, end: self.start + cut as u64 }
    }
}

/// What reading the PCM of `file` from `start` on comes to.
pub open spec fn snapshots(
    file: Seq<u8>,
    start: int,
    frame: Result<Option<Frame>, WavFault>,
) -> bool {
    match (frame, pcm_window(file, file.len() as int, start)) {
        (Err(fault), Err(expected)) => fault == expected,
        (Ok(None), Ok(None)) => true,
        (Ok(Some(frame)), Ok(Some(span))) => {
            &&& frame.well_formed()
            &&& frame.start == span.start
            &&& frame.end == span.end
            &&& frame.pcm@ == file.subrange(
                span.offset as int,
                span.offset + (span.end - span.start),
            )
        },
        _ => false,
    }
}

/// The window of PCM from `start` on, of the whole file `file`.
pub fn snapshot_pcm(file: &[u8], start: u64) -> (frame: Result<Option<Frame>, WavFault>)
    requires
        start <= u64::MAX - WINDOW_BYTES,
    ensures
        snapshots(file@, start as int, frame),
{
    match locate_pcm(file, file.len() as u64, start) {
        Err(fault) => Err(fault),
        Ok(None) => Ok(None),
        Ok(Some(span)) => {
            proof {
                lemma_window_in_file(file@, file@.len() as int, start as int);
            }
            let from: usize = span.offset as usize;
            let to: usize = from + (span.end - span.start) as usize;
            let pcm = slice_to_vec(slice_subrange(file, from, to));
            Ok(Some(Frame { pcm, start: span.start, end: span.end }))
        },
    }
}

/// PCM is only ever found inside the file.
proof fn lemma_pcm_offset(head: Seq<u8>, length: int, position: int, supported: bool)
    requires
        0 <= position,
    ensures
        pcm_offset(head, length, position, supported) matches Ok(Some(data)) ==> position + 8
            <= data <= length && data <= HEADER_LIMIT + 8,
    decreases
            if position > HEADER_LIMIT {
                0
            } else {
                HEADER_LIMIT + 1 - position
            },
{
    if position <= HEADER_LIMIT {
        let next = position + 8 + le32_at(head, position + 4) + le32_at(head, position + 4) % 2;
        lemma_pcm_offset(head, length, next, format_at(head, position + 8));
        lemma_pcm_offset(head, length, next, supported);
    }
}

/// A window lies inside the file, holds whole samples only, and is never empty
/// nor longer than the window size.
pub proof fn lemma_window_in_file(head: Seq<u8>, length: int, start: int)
    requires
        0 <= length <= u64::MAX,
        0 <= start <= u64::MAX - WINDOW_BYTES,
    ensures
        pcm_window(head, length, start) matches Ok(Some(span)) ==> {
            &&& span.start == start
            &&& start < span.end <= start + WINDOW_BYTES
            &&& span.offset + (span.end - span.start) <= length
            &&& start % 2 == 0 ==> (span.end - span.start) % 2 == 0
        },
{
    lemma_pcm_offset(head, length, 12, false);
}

/// Two heads that agree where the search reads lead it to the same place.
proof fn lemma_pcm_offset_reads_head(
    a: Seq<u8>,
    b: Seq<u8>,
    length: int,
    position: int,
    supported: bool,
)
    requires
        0 <= position,
        forall|i: int| 0 <= i < length && i < HEAD_BYTES ==> a[i] == b[i],
    ensures
        pcm_offset(a, length, position, supported) == pcm_offset(b, length, position, supported),
    decreases
            if position > HEADER_LIMIT {
                0
            } else {
                HEADER_LIMIT + 1 - position
            },
{
    if position <= HEADER_LIMIT && position + 8 <= length {
        let size = le32_at(a, position + 4);
        let next = position + 8 + size + size % 2;
        lemma_pcm_offset_reads_head(a, b, length, next, supported);
        lemma_pcm_offset_reads_head(a, b, length, next, format_at(a, position + 8));
    }
}

/// The first `HEAD_BYTES` bytes of a file decide where its PCM is: the rest
/// need not be read to find it.
pub proof fn head_decides_window(file: Seq<u8>, start: int)
    ensures
        pcm_window(
            file.take(vstd::math::min(file.len() as int, HEAD_BYTES as int)),
            file.len() as int,
            start,
        ) == pcm_window(file, file.len() as int, start),
{
    let head = file.take(vstd::math::min(file.len() as int, HEAD_BYTES as int));
    lemma_pcm_offset_reads_head(head, file, file.len() as int, 12, false);
}

/// The 44-byte header of a WAV file with `size` bytes of 16 kHz mono PCM16.
pub open spec fn wav_header(size: int) -> Seq<u8> {
    // "RIFF", "WAVEfmt ", "data"
    seq![0x52u8, 0x49, 0x46, 0x46] + le32(36 + size) + seq![
        0x57u8,
        0x41,
        0x56,
        0x45,
        0x66,
        0x6d,
        0x74,
        0x20,
        16,
        0,
        0,
        0,
        1,
        0,
        1,
        0,
    ] + le32(16000) + le32(32000) + seq![2u8, 0, 16, 0, 0x64, 0x61, 0x74, 0x61] + le32(size)
}

fn push_le32(bytes: &mut Vec<u8>, n: u32)
    ensures
        final(bytes)@ == old(bytes)@ + le32(n as int),
{
    bytes.push((n % 256) as u8);
    bytes.push((n / 256 % 256) as u8);
    bytes.push((n / 65536 % 256) as u8);
    bytes.push((n / 16777216 % 256) as u8);
    assert(bytes@ =~= old(bytes)@ + le32(n as int));
}

/// A complete WAV file that holds `pcm`.
pub open spec fn wav_file(pcm: Seq<u8>) -> Seq<u8> {
    wav_header(pcm.len() as int) + pcm
}

/// A complete WAV file that holds `pcm`.
pub fn write_wav(pcm: &[u8]) -> (file: Vec<u8>)
    requires
        pcm@.len() <= u32::MAX - 36,
    ensures
        file@ == wav_file(pcm@),
{
    let size: u32 = pcm.len() as u32;
    let mut file: Vec<u8> = vec![0x52, 0x49, 0x46, 0x46];
    push_le32(&mut file, 36 + size);
    let format: [u8; 16] = [
        0x57,
        0x41,
        0x56,
        0x45,
        0x66,
        0x6d,
        0x74,
        0x20,
        16,
        0,
        0,
        0,
        1,
        0,
        1,
        0,
    ];
    file.extend_from_slice(format.as_slice());
    push_le32(&mut file, 16000);
    push_le32(&mut file, 32000);
    let data: [u8; 8] = [2, 0, 16, 0, 0x64, 0x61, 0x74, 0x61];
    file.extend_from_slice(data.as_slice());
    push_le32(&mut file, size);
    file.extend_from_slice(pcm);
    assert(file@ =~= wav_header(pcm@.len() as int) + pcm@);
    file
}

/// A recording reads back, whatever its length fields hold: of a file that is
/// `wav_header` but for the four bytes of either length, followed by `pcm`, the
/// window from `start` on is the PCM itself, whole samples and at most one
/// window's worth.
pub proof fn recording_reads_back(file: Seq<u8>, pcm: Seq<u8>, start: int)
    requires
        pcm.len() <= u64::MAX - 44,
        0 <= start <= u64::MAX - WINDOW_BYTES,
        file.len() == 44 + pcm.len(),
        file.skip(44) == pcm,
        forall|i: int|
            0 <= i < 44 && !(4 <= i < 8) && !(40 <= i < 44) ==> #[trigger] file[i] == wav_header(
                0,
            )[i],
    ensures
        ({
            let end = window_end(pcm.len() as int, start);
            match pcm_window(file, file.len() as int, start) {
                Ok(None) => end <= start,
                Ok(Some(span)) => {
                    &&& start < end
                    &&& span.start == start && span.end == end
                    &&& file.subrange(span.offset as int, span.offset + (end - start))
                        == pcm.subrange(start, end)
                },
                Err(_) => false,
            }
        }),
{
    let header = wav_header(0);
    assert(header.len() == 44);
    assert(le32(16000) == seq![0x80u8, 0x3e, 0, 0]);
    assert(riff_wave(file));
    assert(le32_at(file, 16) == 16);
    assert(format_at(file, 20)) by {
        assert(file[20] == header[20] && file[21] == header[21]);
        assert(file[22] == header[22] && file[23] == header[23]);
        assert(file[24] == header[24] && file[25] == header[25]);
        assert(file[26] == header[26] && file[27] == header[27]);
        assert(file[32] == header[32] && file[33] == header[33]);
        assert(file[34] == header[34] && file[35] == header[35]);
    }
    assert(tag_at(file, 36, 0x64, 0x61, 0x74, 0x61));
    assert(tag_at(file, 12, 0x66, 0x6d, 0x74, 0x20));
    reveal_with_fuel(pcm_offset, 3);
    assert(pcm_offset(file, file.len() as int, 36, true) == Ok::<Option<int>, WavFault>(Some(44)));
    assert(pcm_offset(file, file.len() as int, 12, false) == Ok::<Option<int>, WavFault>(Some(44)));
    let end = window_end(pcm.len() as int, start);
    if start < end {
        assert(file.subrange(44 + start, 44 + end) =~= pcm.subrange(start, end)) by {
            assert forall|i: int| 0 <= i < end - start implies file.subrange(
                44 + start,
                44 + end,
            )[i] == pcm.subrange(start, end)[i] by {
                assert(file.skip(44)[start + i] == file[44 + start + i]);
            }
        }
    }
}

/// Where a recording shows no window from `start` on, no whole sample is left there.
pub proof fn no_window_means_no_sample(file: Seq<u8>, pcm: Seq<u8>, start: int)
    requires
        pcm.len() <= u64::MAX - 44,
        0 <= start <= u64::MAX - WINDOW_BYTES,
        file.len() == 44 + pcm.len(),
        file.skip(44) == pcm,
        forall|i: int|
            0 <= i < 44 && !(4 <= i < 8) && !(40 <= i < 44) ==> #[trigger] file[i] == wav_header(
                0,
            )[i],
        pcm_window(file, file.len() as int, start) == Ok::<Option<Span>, WavFault>(None),
    ensures
        pcm.len() - pcm.len() % 2 <= start,
{
    recording_reads_back(file, pcm, start);
}

/// What `write_wav` wrote reads back.
pub proof fn written_wav_reads_back(pcm: Seq<u8>, start: int)
    requires
        pcm.len() <= u32::MAX - 36,
        0 <= start <= u64::MAX - WINDOW_BYTES,
    ensures
        ({
            let file = wav_file(pcm);
            let end = window_end(pcm.len() as int, start);
            match pcm_window(file, file.len() as int, start) {
                Ok(None) => end <= start,
                Ok(Some(span)) => {
                    &&& start < end
                    &&& span.start == start && span.end == end
                    &&& file.subrange(span.offset as int, span.offset + (end - start))
                        == pcm.subrange(start, end)
                },
                Err(_) => false,
            }
        }),
{
    let file = wav_file(pcm);
    assert(file.skip(44) =~= pcm);
    recording_reads_back(file, pcm, start);
}

/// The sample that begins at byte `at`, little-endian and signed.
pub open spec fn sample(pcm: Seq<u8>, at: int) -> int {
    let n = pcm[at] + pcm[at + 1] * 256;
    if n >= 32768 {
        n - 65536
    } else {
        n
    }
}

/// The sample that begins at byte `at` is quiet.
pub open spec fn quiet(pcm: Seq<u8>, at: int) -> bool {
    -250 < sample(pcm, at) < 250
}

/// A segment may end at `end`: behind the minimum, at most at the maximum, on a
/// whole sample, and right after a pause.
pub open spec fn pause_ends(pcm: Seq<u8>, end: int) -> bool {
    &&& SEGMENT_MIN <= end <= SEGMENT_MAX
    &&& end <= pcm.len()
    &&& end % 2 == 0
    &&& forall|at: int|
        #![trigger quiet(pcm, at)]
        end - PAUSE_BYTES <= at < end && at % 2 == 0 ==> quiet(pcm, at)
}

/// Where to cut `pcm`: at the last pause that a segment may end on; failing
/// that, at the maximum once that much is there; until then nowhere.
pub open spec fn is_boundary(pcm: Seq<u8>, cut: Option<usize>) -> bool {
    match cut {
        Some(end) => {
            ||| {
                &&& pause_ends(pcm, end as int)
                &&& forall|later: int| end < later ==> !#[trigger] pause_ends(pcm, later)
            }
            ||| {
                &&& end == SEGMENT_MAX
                &&& SEGMENT_MAX <= pcm.len()
                &&& forall|any: int| !#[trigger] pause_ends(pcm, any)
            }
        },
        None => {
            &&& pcm.len() < SEGMENT_MAX
            &&& forall|any: int| !#[trigger] pause_ends(pcm, any)
        },
    }
}

/// There is one place to cut, if any.
pub proof fn boundary_is_unique(pcm: Seq<u8>, a: Option<usize>, b: Option<usize>)
    requires
        is_boundary(pcm, a),
        is_boundary(pcm, b),
    ensures
        a == b,
{
}

fn is_quiet(low: u8, high: u8) -> (r: bool)
    ensures
        r == ({
            let n = low + high * 256;
            -250 < (if n >= 32768 {
                n - 65536
            } else {
                n as int
            }) < 250
        }),
{
    let n: u32 = low as u32 + high as u32 * 256;
    n < 250 || n > 65536 - 250
}

/// Prefers a short pause after at least a second and a half, otherwise cuts at
/// four seconds.
pub fn segment_boundary(pcm: &[u8]) -> (cut: Option<usize>)
    ensures
        is_boundary(pcm@, cut),
        cut matches Some(end) ==> SEGMENT_MIN <= end <= pcm@.len(),
{
    if pcm.len() < SEGMENT_MIN {
        return None;
    }
    let limit = if pcm.len() < SEGMENT_MAX {
        pcm.len()
    } else {
        SEGMENT_MAX
    };
    let mut calm: usize = 0;
    let mut boundary: Option<usize> = None;
    let mut end: usize = 0;
    while end + 1 < limit
        invariant
            limit <= pcm@.len(),
            limit <= SEGMENT_MAX,
            end % 2 == 0,
            end <= limit,
            calm % 2 == 0,
            calm <= end,
            forall|at: int|
                #![trigger quiet(pcm@, at)]
                end - calm <= at < end && at % 2 == 0 ==> quiet(pcm@, at),
            calm < end ==> !quiet(pcm@, end - calm - 2),
            match boundary {
                Some(b) => {
                    &&& b <= end
                    &&& pause_ends(pcm@, b as int)
                    &&& forall|later: int| b < later <= end ==> !#[trigger] pause_ends(pcm@, later)
                },
                None => forall|any: int| any <= end ==> !#[trigger] pause_ends(pcm@, any),
            },
        decreases limit - end,
    {
        let soft = is_quiet(pcm[end], pcm[end + 1]);
        assert(soft == quiet(pcm@, end as int));
        let ghost before = boundary;
        calm = if soft {
            calm + 2
        } else {
            0
        };
        end = end + 2;
        let ghost ends = pause_ends(pcm@, end as int);
        proof {
            if calm < PAUSE_BYTES && ends {
                assert(quiet(pcm@, end - calm - 2));
                assert(false);
            }
            assert(!pause_ends(pcm@, end - 1));
        }
        if end >= SEGMENT_MIN && calm >= PAUSE_BYTES {
            assert(ends);
            boundary = Some(end);
        } else {
            assert(!ends);
        }
        assert forall|later: int|
            end - 2 < later <= end && #[trigger] pause_ends(pcm@, later) implies boundary == Some(
            end,
        ) && later == end by {
            if later != end {
                assert(later == end - 1);
            }
        }
    }
    proof {
        assert forall|later: int| end < later implies !#[trigger] pause_ends(pcm@, later) by {}
    }
    if boundary.is_some() {
        boundary
    } else if pcm.len() >= SEGMENT_MAX {
        Some(SEGMENT_MAX)
    } else {
        None
    }
}

/// Every byte is zero: nothing was captured.
pub open spec fn silent(pcm: Seq<u8>) -> bool {
    forall|i: int| 0 <= i < pcm.len() ==> #[trigger] pcm[i] == 0
}

/// Whether every byte is zero.
pub fn is_silent(pcm: &[u8]) -> (r: bool)
    ensures
        r == silent(pcm@),
{
    for i in 0..pcm.len()
        invariant
            forall|j: int| 0 <= j < i ==> #[trigger] pcm@[j] == 0,
    {
        if pcm[i] != 0 {
            return false;
        }
    }
    true
}

/// A sample is quiet by its size alone: as the two bytes of a number, the least
/// significant first, that lies less than 250 from zero on either side.
pub proof fn a_small_sample_is_quiet(pcm: Seq<u8>, at: int)
    ensures
        quiet(pcm, at) <==> (pcm[at + 1] == 0 && pcm[at] < 250) || (pcm[at + 1] == 255 && pcm[at]
            > 6),
{
}

/// Every stretch of quiet samples of 160 ms that ends between one and a half and four
/// seconds, on a whole sample, ends a segment, unless a later one does; four seconds end
/// one in any case, and less audio without such a stretch ends none. A cut is never made
/// anywhere else, so a word is only ever cut through where four seconds hold no pause.
pub proof fn a_segment_ends_on_a_pause(pcm: Seq<u8>, cut: Option<usize>, end: int)
    requires
        is_boundary(pcm, cut),
    ensures
        48000 <= end <= 128000 && end <= pcm.len() && end % 2 == 0 && (forall|at: int|
            end - 5120 <= at < end && at % 2 == 0 ==> #[trigger] quiet(pcm, at)) ==> (cut matches
            Some(found) && end <= found <= 128000 && forall|at: int|
            found - 5120 <= at < found && at % 2 == 0 ==> #[trigger] quiet(pcm, at)),
        pcm.len() >= 128000 ==> cut is Some,
        cut matches Some(found) ==> 48000 <= found <= 128000 && found <= pcm.len() && found % 2
            == 0 && (found < 128000 ==> forall|at: int|
            found - 5120 <= at < found && at % 2 == 0 ==> #[trigger] quiet(pcm, at)),
{
    if 48000 <= end <= 128000 && end <= pcm.len() && end % 2 == 0 && (forall|at: int|
        end - 5120 <= at < end && at % 2 == 0 ==> #[trigger] quiet(pcm, at)) {
        assert(pause_ends(pcm, end));
    }
}

/// A recording is read window by window: from any place on, what is read is the PCM from
/// there to the end of its last whole sample, or fifteen seconds of it where there is
/// more. Nothing is read exactly where no whole sample is left.
pub proof fn a_recording_is_read_in_windows(file: Seq<u8>, pcm: Seq<u8>, start: int)
    requires
        pcm.len() <= u64::MAX - 44,
        0 <= start <= u64::MAX - 480000,
        file.len() == 44 + pcm.len(),
        file.skip(44) == pcm,
        forall|i: int|
            0 <= i < 44 && !(4 <= i < 8) && !(40 <= i < 44) ==> #[trigger] file[i] == wav_header(
                0,
            )[i],
    ensures
        ({
            let whole = pcm.len() - pcm.len() % 2;
            if whole <= start {
                pcm_window(file, file.len() as int, start) == Ok::<Option<Span>, WavFault>(None)
            } else {
                let end = if whole <= start + 480000 {
                    whole
                } else {
                    start + 480000
                };
                &&& pcm_window(file, file.len() as int, start) matches Ok(Some(span))
                &&& span.start == start
                &&& span.end == end
                &&& file.subrange(span.offset as int, span.offset + (end - start)) == pcm.subrange(
                    start,
                    end,
                )
            }
        }),
{
    recording_reads_back(file, pcm, start);
}

/// The header of a file that is written tells its lengths, and a format of one channel of
/// 16000 samples a second with sixteen bits each.
pub proof fn a_written_header_tells_its_lengths(size: int)
    requires
        0 <= size <= u32::MAX - 36,
    ensures
        ({
            let header = wav_header(size);
            &&& header.len() == 44
            &&& le32_at(header, 4) == 36 + size
            &&& le32_at(header, 40) == size
            &&& le32_at(header, 16) == 16
            &&& header[20] == 1 && header[21] == 0
            &&& header[22] == 1 && header[23] == 0
            &&& le32_at(header, 24) == 16000
            &&& le32_at(header, 28) == 32000
            &&& header[32] == 2 && header[33] == 0
            &&& header[34] == 16 && header[35] == 0
        }),
{
    let header = wav_header(size);
    lemma_le32(36 + size);
    lemma_le32(size);
    lemma_le32(16000);
    lemma_le32(32000);
    assert(header.len() == 44);
    assert(le32_at(header, 4) == le32_at(le32(36 + size), 0));
    assert(le32_at(header, 40) == le32_at(le32(size), 0));
    assert(le32_at(header, 24) == le32_at(le32(16000), 0));
    assert(le32_at(header, 28) == le32_at(le32(32000), 0));
}

proof fn lemma_le32(n: int)
    requires
        0 <= n <= u32::MAX,
    ensures
        le32_at(le32(n), 0) == n,
{
}

/// Looking for the PCM passes over a chunk that is neither format nor data, with its
/// padding, and goes on behind it as before; a format chunk decides whether the PCM is
/// of the kind that is expected; and data after one that is not is refused.
pub proof fn other_chunks_are_passed_over(head: Seq<u8>, length: int, at: int, supported: bool)
    requires
        0 <= at <= 65536,
        at + 8 <= length,
    ensures
        ({
            let size = le32_at(head, at + 4);
            let next = at + 8 + size + size % 2;
            let data = tag_at(head, at, 0x64, 0x61, 0x74, 0x61);
            let format = tag_at(head, at, 0x66, 0x6d, 0x74, 0x20);
            &&& data ==> pcm_offset(head, length, at, true) == Ok::<Option<int>, WavFault>(
                Some(at + 8),
            )
            &&& data ==> pcm_offset(head, length, at, false) == Err::<Option<int>, WavFault>(
                WavFault::WrongFormat,
            )
            &&& !data && at + 8 + size > length ==> pcm_offset(head, length, at, supported) == Ok::<
                Option<int>,
                WavFault,
            >(None)
            &&& !data && !format && at + 8 + size <= length ==> pcm_offset(
                head,
                length,
                at,
                supported,
            ) == pcm_offset(head, length, next, supported)
            &&& format && 16 <= size && at + 8 + size <= length ==> pcm_offset(
                head,
                length,
                at,
                supported,
            ) == pcm_offset(head, length, next, format_at(head, at + 8))
            &&& format && size < 16 && at + 8 + size <= length ==> pcm_offset(
                head,
                length,
                at,
                supported,
            ) == Err::<Option<int>, WavFault>(WavFault::ShortFormat)
        }),
{
    reveal_with_fuel(pcm_offset, 2);
}

/// The format that is expected is PCM, one channel, 16000 samples a second, two bytes to
/// a frame and sixteen bits to a sample, and no other.
pub proof fn the_format_is_mono_pcm16(bytes: Seq<u8>, at: int)
    ensures
        format_at(bytes, at) <==> {
            &&& bytes[at] == 1 && bytes[at + 1] == 0
            &&& bytes[at + 2] == 1 && bytes[at + 3] == 0
            &&& bytes[at + 4] == 0x80 && bytes[at + 5] == 0x3e
            &&& bytes[at + 6] == 0 && bytes[at + 7] == 0
            &&& bytes[at + 12] == 2 && bytes[at + 13] == 0
            &&& bytes[at + 14] == 16 && bytes[at + 15] == 0
        },
{
}

/// A file too short for a header shows no PCM yet, and one that begins as no WAV file is
/// refused.
pub proof fn only_a_wav_file_is_read(head: Seq<u8>, length: int, start: int)
    ensures
        length < 44 ==> pcm_window(head, length, start) == Ok::<Option<Span>, WavFault>(None),
        length >= 44 && !(head[0] == 0x52 && head[1] == 0x49 && head[2] == 0x46 && head[3] == 0x46
            && head[8] == 0x57 && head[9] == 0x41 && head[10] == 0x56 && head[11] == 0x45)
            ==> pcm_window(head, length, start) == Err::<Option<Span>, WavFault>(
            WavFault::NotRiff,
        ),
{
}

/// What is read of a recording is its PCM, byte for byte, from where it is asked for to
/// the end of the last whole sample, or fifteen seconds of it.
pub proof fn a_snapshot_is_the_recorded_pcm(
    file: Seq<u8>,
    pcm: Seq<u8>,
    start: int,
    frame: Result<Option<Frame>, WavFault>,
)
    requires
        snapshots(file, start, frame),
        pcm.len() <= u64::MAX - 44,
        0 <= start <= u64::MAX - 480000,
        file.len() == 44 + pcm.len(),
        file.skip(44) == pcm,
        forall|i: int|
            0 <= i < 44 && !(4 <= i < 8) && !(40 <= i < 44) ==> #[trigger] file[i] == wav_header(
                0,
            )[i],
    ensures
        ({
            let whole = pcm.len() - pcm.len() % 2;
            if whole <= start {
                frame == Ok::<Option<Frame>, WavFault>(None)
            } else {
                let end = if whole <= start + 480000 {
                    whole
                } else {
                    start + 480000
                };
                &&& frame matches Ok(Some(found))
                &&& found.start == start
                &&& found.end == end
                &&& found.pcm@ == pcm.subrange(start, end)
            }
        }),
{
    a_recording_is_read_in_windows(file, pcm, start);
}

/// A file that is written for `pcm` is a header of 44 bytes and `pcm` behind it.
pub proof fn a_written_file_holds_its_pcm(pcm: Seq<u8>)
    ensures
        wav_file(pcm).len() == 44 + pcm.len(),
        wav_file(pcm).skip(44) == pcm,
        wav_file(pcm).take(44) == wav_header(pcm.len() as int),
{
    assert(wav_file(pcm).skip(44) =~= pcm);
    assert(wav_file(pcm).take(44) =~= wav_header(pcm.len() as int));
}

/// PCM that does not begin within the first 64 KiB is not looked for any further, and a
/// chunk whose header is not there yet is waited for.
pub proof fn the_search_for_pcm_is_bounded(head: Seq<u8>, length: int, at: int, supported: bool)
    ensures
        at > 65536 ==> pcm_offset(head, length, at, supported) == Err::<Option<int>, WavFault>(
            WavFault::HeaderTooLarge,
        ),
        0 <= at <= 65536 && at + 8 > length ==> pcm_offset(head, length, at, supported) == Ok::<
            Option<int>,
            WavFault,
        >(None),
{
}

}
