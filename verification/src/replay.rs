//! The binary replay container: a fixed header, an optionally
//! LZMA-compressed body holding player names, duel parameters and decks, and
//! a length-prefixed action stream.
//!
//! [`Replay::open`] parses a container from its bytes; [`spec_open`] is the
//! parse as a function of the bytes, and `open` returns exactly it.

use vstd::prelude::*;

use crate::messages::{spec_u8_at, spec_u16_at, spec_u32_at, spec_i32_at, get_u8, get_u16,
    get_u32, get_i32};
use crate::text::{utf16_lossy, utf8_lossy, spec_utf16_units, utf16_units_until_nul,
    utf8_lossy_to_string, utf16_lossy_to_string};
use vstd::slice::{slice_subrange, slice_to_vec};

verus! {

/// Flag: the body is LZMA-compressed.
pub const REPLAY_COMPRESSED: u32 = 0x1;

/// Flag: a tag duel with four players.
pub const REPLAY_TAG: u32 = 0x2;

/// Flag: the body was already decoded.
pub const REPLAY_DECODED: u32 = 0x4;

/// Flag: a single-mode replay naming a script instead of decks.
pub const REPLAY_SINGLE_MODE: u32 = 0x8;

/// Flag: uniform randomness.
pub const REPLAY_UNIFORM: u32 = 0x10;

/// The magic id of the base container.
pub const REPLAY_ID_YRP1: u32 = 0x31707279;

/// The magic id of the extended container.
pub const REPLAY_ID_YRP2: u32 = 0x32707279;

/// The largest deck count the container may claim.
pub const MAINC_MAX: u32 = 250;

/// How many words the extended header's seed sequence holds.
pub const SEED_COUNT: usize = 8;

/// The fixed container header.
#[derive(Debug, Clone, Copy, PartialEq, Eq)]
pub struct ReplayHeader {
    pub id: u32,
    pub version: u32,
    pub flag: u32,
    pub seed: u32,
    pub datasize: u32,
    pub start_time: u32,
    pub props: [u8; 8],
}

/// The extended header of the newer container: a seed sequence and three
/// auxiliary values follow the base header.
#[derive(Debug, Clone, Copy, PartialEq, Eq)]
pub struct ExtendedReplayHeader {
    pub base: ReplayHeader,
    pub seed_sequence: [u32; 8],
    pub header_version: u32,
    pub value1: u32,
    pub value2: u32,
    pub value3: u32,
}

/// The duel parameters recorded in the body.
#[derive(Debug, Clone, Copy, PartialEq, Eq, Structural)]
pub struct DuelParameters {
    pub start_lp: i32,
    pub start_hand: i32,
    pub draw_count: i32,
    pub duel_flag: u32,
}

impl Default for DuelParameters {
    fn default() -> (r: Self)
        ensures
            r == (DuelParameters { start_lp: 0, start_hand: 0, draw_count: 0, duel_flag: 0 }),
    {
        DuelParameters { start_lp: 0, start_hand: 0, draw_count: 0, duel_flag: 0 }
    }
}

/// One player's deck lists: main deck codes and extra deck codes.
#[derive(Debug, Clone)]
pub struct DeckArray {
    pub main: Vec<u32>,
    pub extra: Vec<u32>,
}

impl View for DeckArray {
    type V = (Seq<u32>, Seq<u32>);

    open spec fn view(&self) -> (Seq<u32>, Seq<u32>) {
        (self.main@, self.extra@)
    }
}

impl Default for DeckArray {
    fn default() -> (r: Self)
        ensures
            r@ == (Seq::<u32>::empty(), Seq::<u32>::empty()),
    {
        let r = DeckArray { main: Vec::new(), extra: Vec::new() };
        proof {
            assert(r@.0 =~= Seq::<u32>::empty());
            assert(r@.1 =~= Seq::<u32>::empty());
        }
        r
    }
}

/// Why a container was rejected.
#[derive(Debug, Clone, Copy, PartialEq, Eq, Structural)]
pub enum ReplayError {
    /// The bytes end before a field they promise.
    Truncated,
    /// A single-mode script name has a bad length or prefix.
    BadScriptName,
    /// A deck count exceeds the allowed maximum.
    DeckTooLarge,
}

/// Mathematical model of a parsed replay.
#[verifier::ext_equal]
pub ghost struct ReplayView {
    pub header: ReplayHeader,
    pub players: Seq<Seq<char>>,
    pub params: DuelParameters,
    pub decks: Seq<(Seq<u32>, Seq<u32>)>,
    pub script_name: Option<Seq<char>>,
    pub data: Seq<u8>,
    pub actions: Seq<u8>,
    pub packet_data: Seq<Seq<u8>>,
    pub decompressed_ok: bool,
}

/// A parsed replay: the header, the recovered names, parameters and decks,
/// the decoded body, the raw action stream and its packets. When the body
/// cannot be decoded, `decompressed_ok` is false and only the header and the
/// raw bytes are kept.
#[derive(Debug)]
pub struct Replay {
    pub header: ReplayHeader,
    pub players: Vec<String>,
    pub params: DuelParameters,
    pub decks: Vec<DeckArray>,
    pub script_name: Option<String>,
    pub data: Vec<u8>,
    pub actions: Vec<u8>,
    pub packet_data: Vec<Vec<u8>>,
    pub decompressed_ok: bool,
}

impl View for Replay {
    type V = ReplayView;

    open spec fn view(&self) -> ReplayView {
        ReplayView {
            header: self.header,
            players: Seq::new(self.players@.len(), |i: int| self.players@[i]@),
            params: self.params,
            decks: Seq::new(self.decks@.len(), |i: int| self.decks@[i]@),
            script_name: match self.script_name {
                Some(s) => Some(s@),
                None => None,
            },
            data: self.data@,
            actions: self.actions@,
            packet_data: Seq::new(self.packet_data@.len(), |i: int| self.packet_data@[i]@),
            decompressed_ok: self.decompressed_ok,
        }
    }
}

/// The bytes that LZMA decoding yields for an input stream, or nothing when
/// the stream is rejected.
pub uninterp spec fn lzma_decoded(input: Seq<u8>) -> Option<Seq<u8>>;

/// Relies on lzma_rs::lzma_decompress: the decoded bytes are a function of
/// the input stream alone.
#[verifier::external_body]
fn lzma_decode(input: &Vec<u8>) -> (r: Option<Vec<u8>>)
    ensures
        match r {
            Some(out) => lzma_decoded(input@) == Some(out@),
            None => lzma_decoded(input@) is None,
        },
{
    let mut cur = std::io::Cursor::new(input.as_slice());
    let mut out: Vec<u8> = Vec::new();
    match lzma_rs::lzma_decompress(&mut cur, &mut out) {
        Ok(()) => Some(out),
        Err(_) => None,
    }
}

/// The bytes that LZMA decoding yields when the stream carries no size
/// field and exactly `size` bytes are expected, or nothing when the stream
/// is rejected.
pub uninterp spec fn lzma_decoded_sized(input: Seq<u8>, size: u32) -> Option<Seq<u8>>;

/// Relies on lzma_rs::lzma_decompress_with_options with a provided unpacked
/// size: it decodes a stream whose header holds the properties but no size
/// field — the shape replay containers store — and the decoded bytes are a
/// function of the stream and the expected size alone.
#[verifier::external_body]
fn lzma_decode_sized(input: &Vec<u8>, size: u32) -> (r: Option<Vec<u8>>)
    ensures
        match r {
            Some(out) => lzma_decoded_sized(input@, size) == Some(out@),
            None => lzma_decoded_sized(input@, size) is None,
        },
{
    let mut cur = std::io::Cursor::new(input.as_slice());
    let mut out: Vec<u8> = Vec::new();
    let options = lzma_rs::decompress::Options {
        unpacked_size: lzma_rs::decompress::UnpackedSize::UseProvided(Some(size as u64)),
        ..Default::default()
    };
    match lzma_rs::lzma_decompress_with_options(&mut cur, &mut out, &options) {
        Ok(()) => Some(out),
        Err(_) => None,
    }
}

/// The header the first 32 bytes spell.
pub open spec fn spec_header(b: Seq<u8>) -> ReplayHeader {
    ReplayHeader {
        id: spec_u32_at(b, 0),
        version: spec_u32_at(b, 4),
        flag: spec_u32_at(b, 8),
        seed: spec_u32_at(b, 12),
        datasize: spec_u32_at(b, 16),
        start_time: spec_u32_at(b, 20),
        props: [
            spec_u8_at(b, 24),
            spec_u8_at(b, 25),
            spec_u8_at(b, 26),
            spec_u8_at(b, 27),
            spec_u8_at(b, 28),
            spec_u8_at(b, 29),
            spec_u8_at(b, 30),
            spec_u8_at(b, 31),
        ],
    }
}

/// The decoded body of a compressed container, in three attempts: the
/// stream with the five header property bytes prefixed, then the raw
/// stream, then the prefixed stream read without a size field using the
/// recorded size — the shape the ecosystem's native compressor writes. A
/// decode whose length disagrees with the recorded size is rejected.
pub open spec fn spec_decoded_body(h: ReplayHeader, comp: Seq<u8>) -> Option<Seq<u8>> {
    let composed = seq![h.props[0], h.props[1], h.props[2], h.props[3], h.props[4]] + comp;
    let d = if lzma_decoded(composed) is Some {
        lzma_decoded(composed)
    } else if lzma_decoded(comp) is Some {
        lzma_decoded(comp)
    } else {
        lzma_decoded_sized(composed, h.datasize)
    };
    match d {
        Some(x) => if x.len() == h.datasize {
            Some(x)
        } else {
            None
        },
        None => None,
    }
}

/// The code list of `cnt` little-endian words at `off`.
pub open spec fn spec_codes(d: Seq<u8>, off: int, cnt: int) -> Seq<u32> {
    Seq::new(cnt as nat, |i: int| spec_u32_at(d, off + 4 * i))
}

/// The deck lists of `n` players, read sequentially from `off`: each player
/// holds a counted main list then a counted extra list. Returns the decks
/// and the offset where the action stream begins.
pub open spec fn spec_decks(d: Seq<u8>, off: int, n: int) -> Result<
    (Seq<(Seq<u32>, Seq<u32>)>, int),
    ReplayError,
>
    decreases n,
{
    if n <= 0 {
        Ok((Seq::empty(), off))
    } else if d.len() < off + 4 {
        Err(ReplayError::Truncated)
    } else {
        let mc = spec_u32_at(d, off);
        if mc > MAINC_MAX {
            Err(ReplayError::DeckTooLarge)
        } else if d.len() < off + 4 + 4 * mc {
            Err(ReplayError::Truncated)
        } else {
            let main = spec_codes(d, off + 4, mc as int);
            let off2 = off + 4 + 4 * mc;
            if d.len() < off2 + 4 {
                Err(ReplayError::Truncated)
            } else {
                let ec = spec_u32_at(d, off2);
                if ec > MAINC_MAX {
                    Err(ReplayError::DeckTooLarge)
                } else if d.len() < off2 + 4 + 4 * ec {
                    Err(ReplayError::Truncated)
                } else {
                    let extra = spec_codes(d, off2 + 4, ec as int);
                    match spec_decks(d, off2 + 4 + 4 * ec, n - 1) {
                        Ok((rest, end)) => Ok((seq![(main, extra)] + rest, end)),
                        Err(e) => Err(e),
                    }
                }
            }
        }
    }
}

/// The action stream split with one-byte length prefixes, and how many
/// packets were cut short.
pub open spec fn spec_split_u8(a: Seq<u8>) -> (Seq<Seq<u8>>, int)
    decreases a.len(),
{
    if a.len() == 0 {
        (Seq::empty(), 0)
    } else {
        let l = a[0] as int;
        if 1 + l <= a.len() {
            let r = spec_split_u8(a.skip(1 + l));
            (seq![a.subrange(1, 1 + l)] + r.0, r.1)
        } else {
            (seq![a.skip(1)], 1)
        }
    }
}

/// The action stream split with two-byte little-endian length prefixes, and
/// how many packets were cut short; a trailing byte that cannot hold a
/// length is kept as a final packet.
pub open spec fn spec_split_u16(a: Seq<u8>) -> (Seq<Seq<u8>>, int)
    decreases a.len(),
{
    if a.len() < 2 {
        if a.len() > 0 {
            (seq![a], 0)
        } else {
            (Seq::empty(), 0)
        }
    } else {
        let l = spec_u16_at(a, 0) as int;
        if 2 + l <= a.len() {
            let r = spec_split_u16(a.skip(2 + l));
            (seq![a.subrange(2, 2 + l)] + r.0, r.1)
        } else {
            (seq![a.skip(2)], 1)
        }
    }
}

/// The packets of an action stream: both framings are tried and the one with
/// fewer cut-short packets wins; ties go to the one-byte framing.
pub open spec fn spec_packets(a: Seq<u8>) -> Seq<Seq<u8>> {
    let r8 = spec_split_u8(a);
    let r16 = spec_split_u16(a);
    if r8.1 <= r16.1 {
        r8.0
    } else {
        r16.0
    }
}

/// The number of players the flag field promises names and decks for.
pub open spec fn spec_player_count(flag: u32) -> int {
    if flag & REPLAY_TAG != 0 {
        4
    } else {
        2
    }
}

/// The bytes of the single-mode script-name prefix, `./single/`.
pub open spec fn spec_single_prefix() -> Seq<u8> {
    seq![0x2eu8, 0x2fu8, 0x73u8, 0x69u8, 0x6eu8, 0x67u8, 0x6cu8, 0x65u8, 0x2fu8]
}

/// A replay whose body could not be decoded: the header and the raw body
/// bytes are kept, nothing else.
pub open spec fn spec_failed_view(h: ReplayHeader, comp: Seq<u8>) -> ReplayView {
    ReplayView {
        header: h,
        players: Seq::empty(),
        params: DuelParameters { start_lp: 0, start_hand: 0, draw_count: 0, duel_flag: 0 },
        decks: Seq::empty(),
        script_name: None,
        data: Seq::empty(),
        actions: comp,
        packet_data: Seq::empty(),
        decompressed_ok: false,
    }
}

/// The parse of a decoded body: names, parameters, then a script name or the
/// decks, then the action stream.
pub open spec fn spec_parse_body(h: ReplayHeader, d: Seq<u8>) -> Result<ReplayView, ReplayError> {
    let count = spec_player_count(h.flag);
    if d.len() < 40 * count + 16 {
        Err(ReplayError::Truncated)
    } else {
        let players = Seq::new(
            count as nat,
            |i: int| utf16_lossy(spec_utf16_units(d.subrange(40 * i, 40 * i + 40))),
        );
        let params = DuelParameters {
            start_lp: spec_i32_at(d, 40 * count),
            start_hand: spec_i32_at(d, 40 * count + 4),
            draw_count: spec_i32_at(d, 40 * count + 8),
            duel_flag: spec_u32_at(d, 40 * count + 12),
        };
        let off = 40 * count + 16;
        if h.flag & REPLAY_SINGLE_MODE != 0 {
            if d.len() < off + 2 {
                Err(ReplayError::Truncated)
            } else {
                let slen = spec_u16_at(d, off) as int;
                if slen == 0 || slen > 255 {
                    Err(ReplayError::BadScriptName)
                } else if d.len() < off + 2 + slen {
                    Err(ReplayError::Truncated)
                } else {
                    let nb = d.subrange(off + 2, off + 2 + slen);
                    if slen >= 9 && nb.take(9) == spec_single_prefix() {
                        let actions = d.skip(off + 2 + slen);
                        Ok(
                            ReplayView {
                                header: h,
                                players: players,
                                params: params,
                                decks: Seq::empty(),
                                script_name: Some(utf8_lossy(nb.skip(9))),
                                data: d,
                                actions: actions,
                                packet_data: spec_packets(actions),
                                decompressed_ok: true,
                            },
                        )
                    } else {
                        Err(ReplayError::BadScriptName)
                    }
                }
            }
        } else {
            match spec_decks(d, off, count) {
                Ok((decks, end)) => {
                    let actions = d.skip(end);
                    Ok(
                        ReplayView {
                            header: h,
                            players: players,
                            params: params,
                            decks: decks,
                            script_name: None,
                            data: d,
                            actions: actions,
                            packet_data: spec_packets(actions),
                            decompressed_ok: true,
                        },
                    )
                },
                Err(e) => Err(e),
            }
        }
    }
}

/// The sequences behind a vector of packets.
pub open spec fn packets_view(v: Seq<Vec<u8>>) -> Seq<Seq<u8>> {
    Seq::new(v.len(), |i: int| v[i]@)
}

/// Split an action stream with one-byte length prefixes.
fn split_with_u8(a: &[u8]) -> (r: (Vec<Vec<u8>>, usize))
    ensures
        packets_view(r.0@) == spec_split_u8(a@).0,
        r.1 as int == spec_split_u8(a@).1,
{
    let n = a.len();
    let mut packets: Vec<Vec<u8>> = Vec::new();
    let mut truncs: usize = 0;
    let mut idx: usize = 0;
    proof {
        assert(a@.skip(0) =~= a@);
        assert(packets_view(packets@) + spec_split_u8(a@.skip(0)).0 =~= spec_split_u8(a@).0);
    }
    while idx < n
        invariant
            n == a@.len(),
            idx <= n,
            truncs <= 1,
            idx < n ==> truncs == 0,
            spec_split_u8(a@).0 == packets_view(packets@) + spec_split_u8(a@.skip(idx as int)).0,
            spec_split_u8(a@).1 == truncs + spec_split_u8(a@.skip(idx as int)).1,
        decreases n - idx,
    {
        let ghost rest = a@.skip(idx as int);
        let l = *vstd::slice::slice_index_get(a, idx) as usize;
        proof {
            assert(rest[0] == a@[idx as int]);
        }
        if n - (idx + 1) >= l {
            let pkt = slice_to_vec(slice_subrange(a, idx + 1, idx + 1 + l));
            let ghost ppre = packets@;
            packets.push(pkt);
            proof {
                assert(pkt@ =~= rest.subrange(1, 1 + l));
                assert(rest.skip(1 + l) =~= a@.skip(idx + 1 + l));
                assert(packets_view(packets@) =~= packets_view(ppre).push(rest.subrange(
                    1,
                    1 + l,
                )));
                assert(packets_view(ppre) + spec_split_u8(rest).0 =~= packets_view(packets@)
                    + spec_split_u8(a@.skip(idx + 1 + l)).0);
            }
            idx = idx + 1 + l;
        } else {
            let pkt = slice_to_vec(slice_subrange(a, idx + 1, n));
            let ghost ppre = packets@;
            packets.push(pkt);
            truncs = truncs + 1;
            proof {
                assert(pkt@ =~= rest.skip(1));
                assert(packets_view(packets@) =~= packets_view(ppre).push(rest.skip(1)));
                assert(packets_view(ppre) + spec_split_u8(rest).0 =~= packets_view(packets@));
                assert(a@.skip(n as int) =~= Seq::<u8>::empty());
                assert(packets_view(packets@) + spec_split_u8(a@.skip(n as int)).0
                    =~= packets_view(packets@));
            }
            idx = n;
        }
    }
    proof {
        assert(a@.skip(n as int) =~= Seq::<u8>::empty());
        assert(packets_view(packets@) + spec_split_u8(a@.skip(n as int)).0 =~= packets_view(
            packets@,
        ));
    }
    (packets, truncs)
}

/// Split an action stream with two-byte little-endian length prefixes.
fn split_with_u16(a: &[u8]) -> (r: (Vec<Vec<u8>>, usize))
    ensures
        packets_view(r.0@) == spec_split_u16(a@).0,
        r.1 as int == spec_split_u16(a@).1,
{
    let n = a.len();
    let mut packets: Vec<Vec<u8>> = Vec::new();
    let mut truncs: usize = 0;
    let mut idx: usize = 0;
    proof {
        assert(a@.skip(0) =~= a@);
        assert(packets_view(packets@) + spec_split_u16(a@.skip(0)).0 =~= spec_split_u16(a@).0);
    }
    while idx < n && n - idx >= 2
        invariant
            n == a@.len(),
            idx <= n,
            truncs <= 1,
            idx < n ==> truncs == 0,
            spec_split_u16(a@).0 == packets_view(packets@) + spec_split_u16(
                a@.skip(idx as int),
            ).0,
            spec_split_u16(a@).1 == truncs + spec_split_u16(a@.skip(idx as int)).1,
        decreases n - idx,
    {
        let ghost rest = a@.skip(idx as int);
        let l = get_u16(a, idx) as usize;
        proof {
            assert(rest.subrange(0, 2) =~= a@.subrange(idx as int, idx + 2));
            assert(spec_u16_at(rest, 0) == spec_u16_at(a@, idx as int));
        }
        if n - (idx + 2) >= l {
            let pkt = slice_to_vec(slice_subrange(a, idx + 2, idx + 2 + l));
            let ghost ppre = packets@;
            packets.push(pkt);
            proof {
                assert(pkt@ =~= rest.subrange(2, 2 + l));
                assert(rest.skip(2 + l) =~= a@.skip(idx + 2 + l));
                assert(packets_view(packets@) =~= packets_view(ppre).push(rest.subrange(
                    2,
                    2 + l,
                )));
                assert(packets_view(ppre) + spec_split_u16(rest).0 =~= packets_view(packets@)
                    + spec_split_u16(a@.skip(idx + 2 + l)).0);
            }
            idx = idx + 2 + l;
        } else {
            let pkt = slice_to_vec(slice_subrange(a, idx + 2, n));
            let ghost ppre = packets@;
            packets.push(pkt);
            truncs = truncs + 1;
            proof {
                assert(pkt@ =~= rest.skip(2));
                assert(packets_view(packets@) =~= packets_view(ppre).push(rest.skip(2)));
                assert(packets_view(ppre) + spec_split_u16(rest).0 =~= packets_view(packets@));
                assert(a@.skip(n as int) =~= Seq::<u8>::empty());
            }
            idx = n;
        }
    }
    if idx < n {
        let pkt = slice_to_vec(slice_subrange(a, idx, n));
        let ghost ppre = packets@;
        let ghost rest = a@.skip(idx as int);
        packets.push(pkt);
        proof {
            assert(rest.len() == n - idx);
            assert(pkt@ =~= rest);
            assert(packets_view(packets@) =~= packets_view(ppre).push(rest));
            assert(packets_view(ppre) + spec_split_u16(rest).0 =~= packets_view(packets@));
        }
    } else {
        proof {
            assert(a@.skip(idx as int) =~= Seq::<u8>::empty());
            assert(packets_view(packets@) + spec_split_u16(a@.skip(idx as int)).0
                =~= packets_view(packets@));
        }
    }
    (packets, truncs)
}

/// Split an action stream into packets, choosing the framing with fewer
/// cut-short packets; ties go to one-byte lengths.
fn split_packets(a: &Vec<u8>) -> (r: Vec<Vec<u8>>)
    ensures
        packets_view(r@) == spec_packets(a@),
{
    let (p8, t8) = split_with_u8(a.as_slice());
    let (p16, t16) = split_with_u16(a.as_slice());
    if t8 <= t16 {
        p8
    } else {
        p16
    }
}

/// Parse a decoded body against `spec_parse_body`.
fn parse_body(header: ReplayHeader, data: Vec<u8>) -> (r: Result<Replay, ReplayError>)
    ensures
        match r {
            Ok(rep) => spec_parse_body(header, data@) == Ok::<ReplayView, ReplayError>(rep@),
            Err(e) => spec_parse_body(header, data@) == Err::<ReplayView, ReplayError>(e),
        },
{
    let n = data.len();
    let count: usize = if header.flag & REPLAY_TAG != 0 {
        4
    } else {
        2
    };
    if n < 40 * count + 16 {
        return Err(ReplayError::Truncated);
    }
    let mut players: Vec<String> = Vec::new();
    let mut i: usize = 0;
    while i < count
        invariant
            n == data@.len(),
            count <= 4,
            n >= 40 * count + 16,
            i <= count,
            players@.len() == i,
            forall|j: int|
                0 <= j < i ==> (#[trigger] players@[j])@ == utf16_lossy(
                    spec_utf16_units(data@.subrange(40 * j, 40 * j + 40)),
                ),
        decreases count - i,
    {
        let units = utf16_units_until_nul(slice_subrange(data.as_slice(), 40 * i, 40 * i + 40));
        let s = utf16_lossy_to_string(&units);
        players.push(s);
        i = i + 1;
    }
    let base = 40 * count;
    let params = DuelParameters {
        start_lp: get_i32(data.as_slice(), base),
        start_hand: get_i32(data.as_slice(), base + 4),
        draw_count: get_i32(data.as_slice(), base + 8),
        duel_flag: get_u32(data.as_slice(), base + 12),
    };
    let off = base + 16;
    let ghost pv = Seq::new(
        count as nat,
        |j: int| utf16_lossy(spec_utf16_units(data@.subrange(40 * j, 40 * j + 40))),
    );
    if header.flag & REPLAY_SINGLE_MODE != 0 {
        if n - off < 2 {
            return Err(ReplayError::Truncated);
        }
        let slen = get_u16(data.as_slice(), off) as usize;
        if slen == 0 || slen > 255 {
            return Err(ReplayError::BadScriptName);
        }
        if n - (off + 2) < slen {
            return Err(ReplayError::Truncated);
        }
        let nb = slice_subrange(data.as_slice(), off + 2, off + 2 + slen);
        let prefix_ok = slen >= 9 && get_u8(nb, 0) == 0x2e && get_u8(nb, 1) == 0x2f && get_u8(
            nb,
            2,
        ) == 0x73 && get_u8(nb, 3) == 0x69 && get_u8(nb, 4) == 0x6e && get_u8(nb, 5) == 0x67
            && get_u8(nb, 6) == 0x6c && get_u8(nb, 7) == 0x65 && get_u8(nb, 8) == 0x2f;
        proof {
            if slen >= 9 {
                if nb@.take(9) == spec_single_prefix() {
                    assert(nb@[0] == 0x2eu8 && nb@[1] == 0x2fu8 && nb@[2] == 0x73u8 && nb@[3]
                        == 0x69u8 && nb@[4] == 0x6eu8 && nb@[5] == 0x67u8 && nb@[6] == 0x6cu8
                        && nb@[7] == 0x65u8 && nb@[8] == 0x2fu8) by {
                        assert(nb@.take(9)[0] == nb@[0]);
                        assert(nb@.take(9)[1] == nb@[1]);
                        assert(nb@.take(9)[2] == nb@[2]);
                        assert(nb@.take(9)[3] == nb@[3]);
                        assert(nb@.take(9)[4] == nb@[4]);
                        assert(nb@.take(9)[5] == nb@[5]);
                        assert(nb@.take(9)[6] == nb@[6]);
                        assert(nb@.take(9)[7] == nb@[7]);
                        assert(nb@.take(9)[8] == nb@[8]);
                    }
                }
                if nb@[0] == 0x2eu8 && nb@[1] == 0x2fu8 && nb@[2] == 0x73u8 && nb@[3] == 0x69u8
                    && nb@[4] == 0x6eu8 && nb@[5] == 0x67u8 && nb@[6] == 0x6cu8 && nb@[7]
                    == 0x65u8 && nb@[8] == 0x2fu8 {
                    assert(nb@.take(9) =~= spec_single_prefix());
                }
            }
        }
        if !prefix_ok {
            return Err(ReplayError::BadScriptName);
        }
        let name_bytes = slice_to_vec(slice_subrange(nb, 9, slen));
        let script = utf8_lossy_to_string(&name_bytes);
        let actions = slice_to_vec(slice_subrange(data.as_slice(), off + 2 + slen, n));
        let packet_data = split_packets(&actions);
        let r = Replay {
            header,
            players,
            params,
            decks: Vec::new(),
            script_name: Some(script),
            data,
            actions,
            packet_data,
            decompressed_ok: true,
        };
        proof {
            assert(name_bytes@ =~= r.data@.subrange(
                off + 2,
                off + 2 + slen as int,
            ).skip(9));
            assert(r@.players =~= pv);
            assert(r@.decks =~= Seq::<(Seq<u32>, Seq<u32>)>::empty());
            assert(r.actions@ =~= r.data@.skip(off + 2 + slen as int));
            assert(r@ =~= spec_parse_body(header, r.data@)->Ok_0);
        }
        Ok(r)
    } else {
        let mut decks: Vec<DeckArray> = Vec::new();
        let mut p: usize = 0;
        let mut doff: usize = off;
        while p < count
            invariant
                n == data@.len(),
                count <= 4,
                p <= count,
                doff <= n,
                decks@.len() == p,
                header.flag & REPLAY_SINGLE_MODE == 0,
                count as int == spec_player_count(header.flag),
                off == 40 * count + 16,
                n >= 40 * count + 16,
                spec_decks(data@, off as int, count as int) == (match spec_decks(
                    data@,
                    doff as int,
                    count - p,
                ) {
                    Ok((rest, end)) => Ok::<(Seq<(Seq<u32>, Seq<u32>)>, int), ReplayError>(
                        (Seq::new(decks@.len(), |i: int| decks@[i]@) + rest, end),
                    ),
                    Err(e) => Err::<(Seq<(Seq<u32>, Seq<u32>)>, int), ReplayError>(e),
                }),
            decreases count - p,
        {
            if n - doff < 4 {
                return Err(ReplayError::Truncated);
            }
            let mc = get_u32(data.as_slice(), doff);
            if mc > MAINC_MAX {
                return Err(ReplayError::DeckTooLarge);
            }
            let mcu = mc as usize;
            if n - (doff + 4) < 4 * mcu {
                return Err(ReplayError::Truncated);
            }
            let mut main: Vec<u32> = Vec::new();
            let mut k: usize = 0;
            while k < mcu
                invariant
                    n == data@.len(),
                    doff + 4 + 4 * mcu <= n,
                    k <= mcu,
                    main@.len() == k,
                    forall|j: int|
                        0 <= j < k ==> (#[trigger] main@[j]) == spec_u32_at(
                            data@,
                            doff + 4 + 4 * j,
                        ),
                decreases mcu - k,
            {
                main.push(get_u32(data.as_slice(), doff + 4 + 4 * k));
                k = k + 1;
            }
            let off2 = doff + 4 + 4 * mcu;
            if n - off2 < 4 {
                return Err(ReplayError::Truncated);
            }
            let ec = get_u32(data.as_slice(), off2);
            if ec > MAINC_MAX {
                return Err(ReplayError::DeckTooLarge);
            }
            let ecu = ec as usize;
            if n - (off2 + 4) < 4 * ecu {
                return Err(ReplayError::Truncated);
            }
            let mut extra: Vec<u32> = Vec::new();
            let mut k2: usize = 0;
            while k2 < ecu
                invariant
                    n == data@.len(),
                    off2 + 4 + 4 * ecu <= n,
                    k2 <= ecu,
                    extra@.len() == k2,
                    forall|j: int|
                        0 <= j < k2 ==> (#[trigger] extra@[j]) == spec_u32_at(
                            data@,
                            off2 + 4 + 4 * j,
                        ),
                decreases ecu - k2,
            {
                extra.push(get_u32(data.as_slice(), off2 + 4 + 4 * k2));
                k2 = k2 + 1;
            }
            let ghost dpre = decks@;
            let deck = DeckArray { main, extra };
            proof {
                assert(deck.main@ =~= spec_codes(data@, doff + 4, mc as int));
                assert(deck.extra@ =~= spec_codes(data@, off2 + 4, ec as int));
            }
            decks.push(deck);
            proof {
                let item = (spec_codes(data@, doff + 4, mc as int), spec_codes(
                    data@,
                    off2 + 4,
                    ec as int,
                ));
                assert(Seq::new(decks@.len(), |i: int| decks@[i]@) =~= Seq::new(
                    dpre.len(),
                    |i: int| dpre[i]@,
                ).push(item));
                let tail = spec_decks(data@, off2 + 4 + 4 * ecu as int, count - p - 1);
                match tail {
                    Ok(pair) => {
                        assert(Seq::new(dpre.len(), |i: int| dpre[i]@) + (seq![item] + pair.0)
                            =~= Seq::new(decks@.len(), |i: int| decks@[i]@) + pair.0);
                    },
                    Err(_) => {},
                }
            }
            doff = off2 + 4 + 4 * ecu;
            p = p + 1;
        }
        let actions = slice_to_vec(slice_subrange(data.as_slice(), doff, n));
        let packet_data = split_packets(&actions);
        let r = Replay {
            header,
            players,
            params,
            decks,
            script_name: None,
            data,
            actions,
            packet_data,
            decompressed_ok: true,
        };
        proof {
            assert(r@.players =~= pv);
            assert(r.actions@ =~= r.data@.skip(doff as int));
            assert(r@ =~= spec_parse_body(header, r.data@)->Ok_0);
        }
        Ok(r)
    }
}

impl Replay {
    /// Parse a replay container from its bytes; the result is exactly
    /// [`spec_open`] of them.
    pub fn open(bytes: &[u8]) -> (r: Result<Replay, ReplayError>)
        ensures
            match r {
                Ok(rep) => spec_open(bytes@) == Ok::<ReplayView, ReplayError>(rep@),
                Err(e) => spec_open(bytes@) == Err::<ReplayView, ReplayError>(e),
            },
    {
        let n = bytes.len();
        if n < 32 {
            return Err(ReplayError::Truncated);
        }
        let header = ReplayHeader {
            id: get_u32(bytes, 0),
            version: get_u32(bytes, 4),
            flag: get_u32(bytes, 8),
            seed: get_u32(bytes, 12),
            datasize: get_u32(bytes, 16),
            start_time: get_u32(bytes, 20),
            props: [
                get_u8(bytes, 24),
                get_u8(bytes, 25),
                get_u8(bytes, 26),
                get_u8(bytes, 27),
                get_u8(bytes, 28),
                get_u8(bytes, 29),
                get_u8(bytes, 30),
                get_u8(bytes, 31),
            ],
        };
        proof {
            assert(header.props =~= spec_header(bytes@).props);
            assert(header =~= spec_header(bytes@));
        }
        let hdr_end: usize = if header.id == REPLAY_ID_YRP2 {
            80
        } else {
            32
        };
        if n < hdr_end {
            return Err(ReplayError::Truncated);
        }
        let comp: Vec<u8> = slice_to_vec(slice_subrange(bytes, hdr_end, n));
        proof {
            assert(comp@ =~= bytes@.skip(hdr_end as int));
        }
        if header.flag & REPLAY_COMPRESSED != 0 {
            let mut composed: Vec<u8> = Vec::new();
            composed.push(header.props[0]);
            composed.push(header.props[1]);
            composed.push(header.props[2]);
            composed.push(header.props[3]);
            composed.push(header.props[4]);
            composed.extend_from_slice(comp.as_slice());
            proof {
                assert(composed@ =~= seq![
                    header.props[0],
                    header.props[1],
                    header.props[2],
                    header.props[3],
                    header.props[4],
                ] + comp@);
            }
            let attempt = match lzma_decode(&composed) {
                Some(x) => Some(x),
                None => match lzma_decode(&comp) {
                    Some(x) => Some(x),
                    None => lzma_decode_sized(&composed, header.datasize),
                },
            };
            match attempt {
                Some(x) => {
                    if x.len() as u64 == header.datasize as u64 {
                        parse_body(header, x)
                    } else {
                        let r = failed_replay(header, comp);
                        proof {
                            assert(r@ =~= spec_failed_view(header, bytes@.skip(hdr_end as int)));
                        }
                        Ok(r)
                    }
                },
                None => {
                    let r = failed_replay(header, comp);
                    proof {
                        assert(r@ =~= spec_failed_view(header, bytes@.skip(hdr_end as int)));
                    }
                    Ok(r)
                },
            }
        } else {
            parse_body(header, comp)
        }
    }
}

/// A replay whose body could not be decoded, holding the header and the raw
/// body bytes.
fn failed_replay(header: ReplayHeader, comp: Vec<u8>) -> (r: Replay)
    ensures
        r@ == spec_failed_view(header, comp@),
{
    let r = Replay {
        header,
        players: Vec::new(),
        params: DuelParameters::default(),
        decks: Vec::new(),
        script_name: None,
        data: Vec::new(),
        actions: comp,
        packet_data: Vec::new(),
        decompressed_ok: false,
    };
    proof {
        assert(r@.players =~= Seq::<Seq<char>>::empty());
        assert(r@.decks =~= Seq::<(Seq<u32>, Seq<u32>)>::empty());
        assert(r@.packet_data =~= Seq::<Seq<u8>>::empty());
        assert(r@ =~= spec_failed_view(header, comp@));
    }
    r
}

/// The parse of a whole container, as a function of its bytes.
pub open spec fn spec_open(b: Seq<u8>) -> Result<ReplayView, ReplayError> {
    if b.len() < 32 {
        Err(ReplayError::Truncated)
    } else {
        let h = spec_header(b);
        let hdr_end: int = if h.id == REPLAY_ID_YRP2 {
            80
        } else {
            32
        };
        if b.len() < hdr_end {
            Err(ReplayError::Truncated)
        } else {
            let comp = b.skip(hdr_end);
            if h.flag & REPLAY_COMPRESSED != 0 {
                match spec_decoded_body(h, comp) {
                    Some(d) => spec_parse_body(h, d),
                    None => Ok(spec_failed_view(h, comp)),
                }
            } else {
                spec_parse_body(h, comp)
            }
        }
    }
}

} // verus!
