//! Bounds the framing regions of a `multipart/form-data` stream (the preamble
//! before the first boundary and each part's header block) while the payload
//! bytes keep streaming.

use vstd::prelude::*;

use crate::byte_pattern::{ends_with, BytePatternMatcher};
use vstd::string::StringSliceAdditionalSpecFns;

verus! {

pub const MAX_MULTIPART_PREAMBLE_BYTES: usize = 8192;

pub const MAX_MULTIPART_PART_HEADER_BYTES: usize = 16384;

pub const MAX_MULTIPART_BOUNDARY_PADDING_BYTES: usize = 1024;

#[derive(Clone, Copy, PartialEq, Eq, Debug)]
pub enum BoundarySuffix {
    Start,
    Dash,
    Padding { bytes: usize },
    CarriageReturn,
}

#[derive(Clone, Copy, PartialEq, Eq, Debug)]
pub enum MultipartStructureState {
    FindingFirstBoundary { scanned: usize },
    ReadingBoundarySuffix(BoundarySuffix),
    ReadingHeaders { bytes: usize },
    ReadingData,
    Done,
}

/// Which of the three searches a state feeds the next byte to.
pub enum Search {
    FirstBoundary,
    HeaderTerminator,
    FieldBoundary,
    NoSearch,
}

pub open spec fn saturating_increment(value: usize) -> usize {
    if value == usize::MAX {
        value
    } else {
        (value + 1) as usize
    }
}

/// The search a byte is fed to in `state` (headers are only searched while
/// the header block is within its bound).
pub open spec fn search_for(state: MultipartStructureState) -> Search {
    match state {
        MultipartStructureState::FindingFirstBoundary { .. } => Search::FirstBoundary,
        MultipartStructureState::ReadingHeaders { bytes } => if saturating_increment(bytes)
            > MAX_MULTIPART_PART_HEADER_BYTES {
            Search::NoSearch
        } else {
            Search::HeaderTerminator
        },
        MultipartStructureState::ReadingData => Search::FieldBoundary,
        _ => Search::NoSearch,
    }
}

/// The structural transition for one byte: the next state and whether the
/// byte is acceptable. `found` says whether the search fed by this byte just
/// completed a match, and `progress` is that search's partial match length
/// afterwards.
pub open spec fn structure_step(
    state: MultipartStructureState,
    byte: u8,
    found: bool,
    progress: int,
) -> (MultipartStructureState, bool) {
    match state {
        MultipartStructureState::FindingFirstBoundary { scanned } => {
            let scanned = saturating_increment(scanned);
            if found {
                (MultipartStructureState::ReadingBoundarySuffix(BoundarySuffix::Start), true)
            } else {
                (
                    MultipartStructureState::FindingFirstBoundary { scanned },
                    (if scanned >= progress {
                        scanned - progress
                    } else {
                        0
                    }) <= MAX_MULTIPART_PREAMBLE_BYTES,
                )
            }
        },
        MultipartStructureState::ReadingBoundarySuffix(suffix) => match suffix {
            BoundarySuffix::Start => if byte == 45 {
                (MultipartStructureState::ReadingBoundarySuffix(BoundarySuffix::Dash), true)
            } else if byte == 32 || byte == 9 {
                (
                    MultipartStructureState::ReadingBoundarySuffix(
                        BoundarySuffix::Padding { bytes: 1 },
                    ),
                    true,
                )
            } else if byte == 13 {
                (
                    MultipartStructureState::ReadingBoundarySuffix(BoundarySuffix::CarriageReturn),
                    true,
                )
            } else {
                (state, false)
            },
            BoundarySuffix::Dash => if byte == 45 {
                (MultipartStructureState::Done, true)
            } else {
                (state, false)
            },
            BoundarySuffix::Padding { bytes } => if byte == 32 || byte == 9 {
                let bytes = saturating_increment(bytes);
                (
                    MultipartStructureState::ReadingBoundarySuffix(BoundarySuffix::Padding { bytes }),
                    bytes <= MAX_MULTIPART_BOUNDARY_PADDING_BYTES,
                )
            } else if byte == 13 {
                (
                    MultipartStructureState::ReadingBoundarySuffix(BoundarySuffix::CarriageReturn),
                    true,
                )
            } else {
                (state, false)
            },
            BoundarySuffix::CarriageReturn => if byte == 10 {
                (MultipartStructureState::ReadingHeaders { bytes: 0 }, true)
            } else {
                (state, false)
            },
        },
        MultipartStructureState::ReadingHeaders { bytes } => {
            let bytes = saturating_increment(bytes);
            if bytes > MAX_MULTIPART_PART_HEADER_BYTES {
                (MultipartStructureState::ReadingHeaders { bytes }, false)
            } else if found {
                (MultipartStructureState::ReadingData, true)
            } else {
                (MultipartStructureState::ReadingHeaders { bytes }, true)
            }
        },
        MultipartStructureState::ReadingData => if found {
            (MultipartStructureState::ReadingBoundarySuffix(BoundarySuffix::Start), true)
        } else {
            (MultipartStructureState::ReadingData, true)
        },
        MultipartStructureState::Done => (MultipartStructureState::Done, true),
    }
}

/// `--` followed by the boundary.
pub open spec fn first_boundary_pattern(boundary: Seq<u8>) -> Seq<u8> {
    seq![45u8, 45u8] + boundary
}

/// CRLF, `--`, then the boundary.
pub open spec fn field_boundary_pattern(boundary: Seq<u8>) -> Seq<u8> {
    seq![13u8, 10u8, 45u8, 45u8] + boundary
}

pub open spec fn header_terminator_pattern() -> Seq<u8> {
    seq![13u8, 10u8, 13u8, 10u8]
}

/// Rejects multipart streams whose preamble, boundary padding or part
/// headers exceed their bounds, or that end before the closing boundary.
pub struct MultipartStructureValidator {
    state: MultipartStructureState,
    first_boundary: BytePatternMatcher,
    field_boundary: BytePatternMatcher,
    header_terminator: BytePatternMatcher,
}

/// One byte fed to a validator: the new state is the structural
/// transition of the old one; only the search the old state feeds is
/// advanced, and the header and field searches restart when their regions
/// begin; the searched patterns never change.
pub open spec fn byte_step(
    before: MultipartStructureValidator,
    after: MultipartStructureValidator,
    byte: u8,
    accepted: bool,
) -> bool {
    let search = search_for(before.state());
    let searched = match search {
        Search::FirstBoundary => before.first_boundary(),
        Search::HeaderTerminator => before.header_terminator(),
        Search::FieldBoundary => before.field_boundary(),
        Search::NoSearch => before.first_boundary(),
    };
    let advanced = match search {
        Search::FirstBoundary => after.first_boundary(),
        Search::HeaderTerminator => after.header_terminator(),
        Search::FieldBoundary => after.field_boundary(),
        Search::NoSearch => after.first_boundary(),
    };
    let found = !(search is NoSearch) && ends_with(searched.consumed().push(byte), searched.pattern_spec());
    &&& after.wf()
    &&& (after.state(), accepted) == structure_step(before.state(), byte, found, advanced.progress())
    &&& after.first_boundary().pattern_spec() == before.first_boundary().pattern_spec()
    &&& after.field_boundary().pattern_spec() == before.field_boundary().pattern_spec()
    &&& after.header_terminator().pattern_spec() == before.header_terminator().pattern_spec()
    &&& !(search is FirstBoundary) ==> after.first_boundary() == before.first_boundary()
    &&& after.state() is ReadingHeaders && !(before.state() is ReadingHeaders)
        ==> after.header_terminator().consumed() == Seq::<u8>::empty()
    &&& after.state() is ReadingData && !(before.state() is ReadingData)
        ==> after.field_boundary().consumed() == Seq::<u8>::empty()
}

impl MultipartStructureValidator {
    pub closed spec fn state(&self) -> MultipartStructureState {
        self.state
    }

    pub closed spec fn first_boundary(&self) -> BytePatternMatcher {
        self.first_boundary
    }

    pub closed spec fn field_boundary(&self) -> BytePatternMatcher {
        self.field_boundary
    }

    pub closed spec fn header_terminator(&self) -> BytePatternMatcher {
        self.header_terminator
    }

    pub closed spec fn wf(&self) -> bool {
        &&& self.first_boundary.wf()
        &&& self.field_boundary.wf()
        &&& self.header_terminator.wf()
    }

    pub fn new(boundary: &str) -> (validator: Self)
        ensures
            validator.wf(),
            validator.state() == (MultipartStructureState::FindingFirstBoundary { scanned: 0 }),
            validator.first_boundary().pattern_spec() == first_boundary_pattern(
                boundary.spec_bytes(),
            ),
            validator.field_boundary().pattern_spec() == field_boundary_pattern(
                boundary.spec_bytes(),
            ),
            validator.header_terminator().pattern_spec() == header_terminator_pattern(),
            validator.first_boundary().consumed() == Seq::<u8>::empty(),
            validator.first_boundary().progress() == 0,
    {
        let bytes = boundary.as_bytes();
        let mut first: Vec<u8> = Vec::new();
        first.push(45);
        first.push(45);
        let mut field: Vec<u8> = Vec::new();
        field.push(13);
        field.push(10);
        field.push(45);
        field.push(45);
        let mut index: usize = 0;
        while index < bytes.len()
            invariant
                index <= bytes@.len(),
                first@ == seq![45u8, 45u8] + bytes@.take(index as int),
                field@ == seq![13u8, 10u8, 45u8, 45u8] + bytes@.take(index as int),
            decreases bytes@.len() - index,
        {
            proof {
                assert(bytes@.take(index + 1) == bytes@.take(index as int).push(bytes@[index as int]));
            }
            first.push(bytes[index]);
            field.push(bytes[index]);
            index += 1;
        }
        proof {
            assert(bytes@.take(bytes@.len() as int) == bytes@);
        }
        let mut terminator: Vec<u8> = Vec::new();
        terminator.push(13);
        terminator.push(10);
        terminator.push(13);
        terminator.push(10);
        MultipartStructureValidator {
            state: MultipartStructureState::FindingFirstBoundary { scanned: 0 },
            first_boundary: BytePatternMatcher::new(first),
            field_boundary: BytePatternMatcher::new(field),
            header_terminator: BytePatternMatcher::new(terminator),
        }
    }

    /// Feeds one byte. The new state is the structural transition of the
    /// old one; only the search the old state feeds is advanced, and the
    /// header and field searches restart when their regions begin.
    pub fn push_byte(&mut self, byte: u8) -> (accepted: bool)
        requires
            old(self).wf(),
        ensures
            byte_step(*old(self), *final(self), byte, accepted),
    {
        match self.state {
            MultipartStructureState::FindingFirstBoundary { scanned } => {
                let scanned = if scanned == usize::MAX {
                    scanned
                } else {
                    scanned + 1
                };
                if self.first_boundary.push(byte) {
                    self.state = MultipartStructureState::ReadingBoundarySuffix(
                        BoundarySuffix::Start,
                    );
                    true
                } else {
                    self.state = MultipartStructureState::FindingFirstBoundary { scanned };
                    let matched = self.first_boundary.matched();
                    let preamble = if scanned >= matched {
                        scanned - matched
                    } else {
                        0
                    };
                    preamble <= MAX_MULTIPART_PREAMBLE_BYTES
                }
            },
            MultipartStructureState::ReadingBoundarySuffix(suffix) => match suffix {
                BoundarySuffix::Start => {
                    if byte == 45 {
                        self.state = MultipartStructureState::ReadingBoundarySuffix(
                            BoundarySuffix::Dash,
                        );
                        true
                    } else if byte == 32 || byte == 9 {
                        self.state = MultipartStructureState::ReadingBoundarySuffix(
                            BoundarySuffix::Padding { bytes: 1 },
                        );
                        true
                    } else if byte == 13 {
                        self.state = MultipartStructureState::ReadingBoundarySuffix(
                            BoundarySuffix::CarriageReturn,
                        );
                        true
                    } else {
                        false
                    }
                },
                BoundarySuffix::Dash => {
                    if byte == 45 {
                        self.state = MultipartStructureState::Done;
                        true
                    } else {
                        false
                    }
                },
                BoundarySuffix::Padding { bytes } => {
                    if byte == 32 || byte == 9 {
                        let bytes = if bytes == usize::MAX {
                            bytes
                        } else {
                            bytes + 1
                        };
                        self.state = MultipartStructureState::ReadingBoundarySuffix(
                            BoundarySuffix::Padding { bytes },
                        );
                        bytes <= MAX_MULTIPART_BOUNDARY_PADDING_BYTES
                    } else if byte == 13 {
                        self.state = MultipartStructureState::ReadingBoundarySuffix(
                            BoundarySuffix::CarriageReturn,
                        );
                        true
                    } else {
                        false
                    }
                },
                BoundarySuffix::CarriageReturn => {
                    if byte == 10 {
                        self.header_terminator.reset();
                        self.state = MultipartStructureState::ReadingHeaders { bytes: 0 };
                        true
                    } else {
                        false
                    }
                },
            },
            MultipartStructureState::ReadingHeaders { bytes } => {
                let bytes = if bytes == usize::MAX {
                    bytes
                } else {
                    bytes + 1
                };
                if bytes > MAX_MULTIPART_PART_HEADER_BYTES {
                    self.state = MultipartStructureState::ReadingHeaders { bytes };
                    false
                } else if self.header_terminator.push(byte) {
                    self.field_boundary.reset();
                    self.state = MultipartStructureState::ReadingData;
                    true
                } else {
                    self.state = MultipartStructureState::ReadingHeaders { bytes };
                    true
                }
            },
            MultipartStructureState::ReadingData => {
                if self.field_boundary.push(byte) {
                    self.state = MultipartStructureState::ReadingBoundarySuffix(
                        BoundarySuffix::Start,
                    );
                }
                true
            },
            MultipartStructureState::Done => true,
        }
    }

    /// Feeds a chunk; stops at the first rejected byte. The validator goes
    /// through one byte step for each byte fed: every byte when the chunk is
    /// accepted; otherwise up to the first rejected byte, which is the last
    /// one fed.
    pub fn push(&mut self, bytes: &[u8]) -> (accepted: bool)
        requires
            old(self).wf(),
        ensures
            final(self).wf(),
            old(self).state() is Done ==> accepted && final(self).state() is Done,
            exists|trace: Seq<MultipartStructureValidator>|
                {
                    &&& 1 <= trace.len() <= bytes@.len() + 1
                    &&& trace[0] == *old(self)
                    &&& trace.last() == *final(self)
                    &&& accepted ==> trace.len() == bytes@.len() + 1
                    &&& !accepted ==> trace.len() >= 2
                    &&& forall|i: int|
                        #![trigger trace[i]]
                        0 <= i < trace.len() - 1 ==> byte_step(
                            trace[i],
                            trace[i + 1],
                            bytes@[i],
                            i < trace.len() - 2 || accepted,
                        )
                },
    {
        let ghost trace: Seq<MultipartStructureValidator> = seq![*self];
        let mut index: usize = 0;
        while index < bytes.len()
            invariant
                self.wf(),
                index <= bytes@.len(),
                old(self).state() is Done ==> self.state() is Done,
                trace.len() == index + 1,
                trace[0] == *old(self),
                trace[index as int] == *self,
                forall|i: int| #![trigger trace[i]] 0 <= i < index ==> byte_step(trace[i], trace[i + 1], bytes@[i], true),
            decreases bytes@.len() - index,
        {
            let ok = self.push_byte(bytes[index]);
            proof {
                trace = trace.push(*self);
            }
            if !ok {
                assert(trace.last() == *self);
                assert forall|i: int|
                    #![trigger trace[i]]
                    0 <= i < trace.len() - 1 implies byte_step(
                    trace[i],
                    trace[i + 1],
                    bytes@[i],
                    i < trace.len() - 2 || false,
                ) by {
                    if i < index {
                        assert(trace[i] == trace.drop_last()[i]);
                    }
                }
                return false;
            }
            index += 1;
        }
        assert(trace.last() == *self);
        true
    }

    /// The stream is complete only after the closing boundary `--`.
    pub fn finish(&self) -> (complete: bool)
        ensures
            complete == (self.state() is Done),
    {
        match self.state {
            MultipartStructureState::Done => true,
            _ => false,
        }
    }
}

/// Once the closing boundary has been read, every later byte is accepted and
/// the stream stays complete.
pub proof fn lemma_done_is_final(byte: u8, found: bool, progress: int)
    ensures
        structure_step(MultipartStructureState::Done, byte, found, progress) == (
        MultipartStructureState::Done,
        true,
        ),
{
}

/// A part header block longer than the bound is rejected no matter what it
/// contains.
pub proof fn lemma_header_block_is_bounded(bytes: usize, byte: u8, found: bool, progress: int)
    requires
        bytes >= MAX_MULTIPART_PART_HEADER_BYTES,
    ensures
        !structure_step(MultipartStructureState::ReadingHeaders { bytes }, byte, found, progress).1,
{
}

/// Before the first boundary, once more than the preamble bound of bytes lie
/// outside the current partial match, the byte is rejected unless it
/// completes the boundary.
pub proof fn lemma_preamble_is_bounded(scanned: usize, byte: u8, progress: int)
    requires
        scanned < usize::MAX,
        scanned + 1 - progress > MAX_MULTIPART_PREAMBLE_BYTES,
    ensures
        !structure_step(
            MultipartStructureState::FindingFirstBoundary { scanned },
            byte,
            false,
            progress,
        ).1,
{
}

} // verus!
