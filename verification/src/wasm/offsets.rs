//! The places at which an input says how long something is, and whether the
//! offset at which that would end can be told.
use vstd::prelude::*;

verus! {

/// The number of a start section.
pub const START_SECTION: u8 = 8;

/// The number of a code section.
pub const CODE_SECTION: u8 = 10;

/// The number of a section with the number of data segments.
pub const DATA_COUNT_SECTION: u8 = 12;

/// The number of 32 bits that starts at `at`, and where it ends: seven bits of
/// each byte, lowest first, up to one without the high bit. `taken` of its five
/// bytes, at most, come before `at`.
pub open spec fn number(data: Seq<u8>, at: int, taken: nat) -> Option<(nat, int)>
    decreases 5 - taken,
{
    if taken >= 5 || !(0 <= at < data.len()) {
        None
    } else if data[at] < 0x80 {
        if taken == 4 && data[at] >= 0x10 {
            None
        } else {
            Some((data[at] as nat, at + 1))
        }
    } else {
        match number(data, at + 1, taken + 1) {
            Some((high, end)) => Some(((data[at] - 0x80) as nat + 0x80 * high, end)),
            None => None,
        }
    }
}

/// The section that starts at `at`: its number, the length that it announces,
/// and where its contents start.
pub open spec fn section_head(data: Seq<u8>, at: int) -> Option<(u8, nat, int)> {
    if 0 <= at < data.len() && data[at] < 0x80 {
        match number(data, at + 1, 0) {
            Some((length, start)) => Some((data[at], length, start)),
            None => None,
        }
    } else {
        None
    }
}

/// Where a payload of an input starts.
pub enum Place {
    /// At the header.
    Header,
    /// After the header of something other than a module.
    Foreign,
    /// At a section, or at the end of the input.
    Section { at: int },
    /// At a function body, where `remaining` bodies and `length` bytes of the
    /// code section are left.
    Body { at: int, remaining: nat, length: nat },
    /// After an error, or after the end.
    Done,
}

/// Where the payload after a start of a code section, or after a function body,
/// starts.
pub open spec fn in_code(at: int, remaining: nat, length: nat) -> Place {
    if remaining > 0 {
        Place::Body { at, remaining, length }
    } else if length == 0 {
        Place::Section { at }
    } else {
        Place::Done
    }
}

/// Where the payload after the one at `place` starts, unless the contents of
/// the latter are an error.
pub open spec fn place_after(data: Seq<u8>, place: Place) -> Place {
    match place {
        Place::Header => if data.len() >= 8 && data[6] == 0 && data[7] == 0 {
            Place::Section { at: 8 }
        } else {
            Place::Foreign
        },
        Place::Foreign => Place::Foreign,
        Place::Section { at } => match section_head(data, at) {
            Some((id, length, start)) => if id == CODE_SECTION {
                match number(data, start, 0) {
                    Some((count, first)) => if first - start <= length {
                        in_code(first, count, (length - (first - start)) as nat)
                    } else {
                        Place::Done
                    },
                    None => Place::Done,
                }
            } else if start + length <= data.len() {
                Place::Section { at: start + length }
            } else {
                Place::Done
            },
            None => Place::Done,
        },
        Place::Body { at, remaining, length } => match number(data, at, 0) {
            Some((size, start)) => {
                let end = start + size;
                if end <= data.len() && end - at <= length {
                    in_code(end, (remaining - 1) as nat, (length - (end - at)) as nat)
                } else {
                    Place::Done
                }
            },
            None => Place::Done,
        },
        Place::Done => Place::Done,
    }
}

/// Where payload `k` starts.
pub open spec fn place_of(data: Seq<u8>, k: nat) -> Place
    decreases k,
{
    if k == 0 {
        Place::Header
    } else {
        place_after(data, place_of(data, (k - 1) as nat))
    }
}

/// Whether the payload at `place` can be read: the lengths that are announced
/// there, and the offsets at which a code section, a start section or a section
/// with the number of data segments would end, can be told. After the header of
/// something other than a module nothing is read.
pub open spec fn can_be_read(offset: u64, data: Seq<u8>, place: Place) -> bool {
    match place {
        Place::Header => true,
        Place::Foreign => false,
        Place::Section { at } => match section_head(data, at) {
            Some((id, length, start)) => if id == CODE_SECTION {
                match number(data, start, 0) {
                    Some((count, first)) => first - start > length || offset + start + length
                        <= usize::MAX,
                    None => true,
                }
            } else if id == START_SECTION || id == DATA_COUNT_SECTION {
                offset + start + length <= usize::MAX
            } else {
                start - at + length <= usize::MAX
            },
            None => true,
        },
        Place::Body { at, remaining, length } => match number(data, at, 0) {
            Some((size, start)) => start - at + size <= usize::MAX,
            None => true,
        },
        Place::Done => true,
    }
}

/// Whether the first `n` payloads can be read, or all of them.
pub open spec fn first_can_be_read(offset: u64, data: Seq<u8>, n: Option<usize>) -> bool {
    forall|k: nat|
        (n is Some ==> k < n->Some_0) ==> can_be_read(offset, data, #[trigger] place_of(data, k))
}

/// Whether the first `n` payloads can be read, and the next one cannot; without
/// a number, whether all of them can.
pub open spec fn is_limit(offset: u64, data: Seq<u8>, n: Option<usize>) -> bool {
    &&& first_can_be_read(offset, data, n)
    &&& n matches Some(n) ==> !can_be_read(offset, data, place_of(data, n as nat))
}

/// The number of payloads before the first one that cannot be read.
pub open spec fn limit(offset: u64, data: Seq<u8>) -> Option<usize> {
    choose|n: Option<usize>| is_limit(offset, data, n)
}

/// Whether offsets into an input that starts at `offset` can be told.
pub open spec fn offsets_fit(offset: u64, data: Seq<u8>) -> bool {
    offset + data.len() <= usize::MAX
}

/// There is one limit at most.
pub proof fn lemma_one_limit(offset: u64, data: Seq<u8>, n: Option<usize>)
    requires
        is_limit(offset, data, n),
    ensures
        limit(offset, data) == n,
{
    let m = limit(offset, data);
    assert(is_limit(offset, data, m));
    if let Some(m) = m {
        assert(!can_be_read(offset, data, place_of(data, m as nat)));
    }
    if let Some(n) = n {
        assert(!can_be_read(offset, data, place_of(data, n as nat)));
    }
}

/// After the end nothing comes.
proof fn lemma_done(data: Seq<u8>, k: nat, j: nat)
    requires
        k <= j,
        place_of(data, k) is Done,
    ensures
        place_of(data, j) is Done,
    decreases j,
{
    if k < j {
        lemma_done(data, k, (j - 1) as nat);
    }
}

/// What a number stays below.
spec fn bound(taken: nat) -> nat {
    if taken == 0 {
        0x1_0000_0000
    } else if taken == 1 {
        0x200_0000
    } else if taken == 2 {
        0x4_0000
    } else if taken == 3 {
        0x800
    } else {
        0x10
    }
}

/// A number has 32 bits at most, and ends behind its start, in the input.
pub proof fn lemma_number_bounds(data: Seq<u8>, at: int, taken: nat)
    ensures
        number(data, at, taken) matches Some((n, end)) ==> n < 0x1_0000_0000 && at < end
            <= data.len(),
{
    lemma_bounds(data, at, taken);
}

/// A number stays below its bound.
proof fn lemma_bounds(data: Seq<u8>, at: int, taken: nat)
    ensures
        number(data, at, taken) matches Some((n, end)) ==> n < bound(taken) && at < end
            <= data.len(),
    decreases 5 - taken,
{
    if taken < 5 && 0 <= at < data.len() && data[at] >= 0x80 {
        lemma_bounds(data, at + 1, taken + 1);
    }
}

/// A number is made up of seven bits of each of its bytes, the lowest first. The
/// last byte has no high bit, and a fifth one has four bits at most; without such
/// a byte there is no number.
pub proof fn a_number_is_seven_bits_of_each_byte(data: Seq<u8>, at: int)
    requires
        0 <= at,
        at + 5 <= data.len(),
    ensures
        ({
            let read = number(data, at, 0);
            let b = |i: int| data[at + i] as int;
            let high = |i: int| data[at + i] - 0x80;
            if b(0) < 0x80 {
                read matches Some((n, end)) && n == b(0) && end == at + 1
            } else if b(1) < 0x80 {
                read matches Some((n, end)) && n == high(0) + 0x80 * b(1) && end == at + 2
            } else if b(2) < 0x80 {
                read matches Some((n, end)) && n == high(0) + 0x80 * high(1) + 0x4000 * b(2) && end
                    == at + 3
            } else if b(3) < 0x80 {
                read matches Some((n, end)) && n == high(0) + 0x80 * high(1) + 0x4000 * high(2)
                    + 0x20_0000 * b(3) && end == at + 4
            } else if b(4) < 0x10 {
                read matches Some((n, end)) && n == high(0) + 0x80 * high(1) + 0x4000 * high(2)
                    + 0x20_0000 * high(3) + 0x1000_0000 * b(4) && end == at + 5
            } else {
                read is None
            }
        }),
{
    reveal_with_fuel(number, 6);
}

/// A section has its number, then its length, then its contents; the next section
/// comes behind these. A code section has the number of its function bodies
/// first. A start section, a section with the number of data segments and a code
/// section with its number of bodies can be read only if the offset at which they
/// end can be told, and nothing can be read whose length cannot be told.
pub proof fn sections_follow_each_other(
    offset: u64,
    data: Seq<u8>,
    at: int,
    length: nat,
    start: int,
)
    requires
        0 <= at < data.len(),
        data[at] < 0x80,
        number(data, at + 1, 0) == Some((length, start)),
    ensures
        ({
            let here = Place::Section { at };
            let next = place_after(data, here);
            let readable = can_be_read(offset, data, here);
            if data[at] == 10 {
                match number(data, start, 0) {
                    Some((count, first)) => if first - start > length {
                        readable && next is Done
                    } else {
                        &&& readable <==> offset + start + length <= usize::MAX
                        &&& count > 0 ==> next == (Place::Body {
                            at: first,
                            remaining: count,
                            length: (length - (first - start)) as nat,
                        })
                        &&& count == 0 && first - start == length ==> next == (Place::Section {
                            at: first,
                        })
                        &&& count == 0 && first - start < length ==> next is Done
                    },
                    None => readable && next is Done,
                }
            } else {
                &&& start + length <= data.len() ==> next == (Place::Section {
                    at: start + length,
                })
                &&& start + length > data.len() ==> next is Done
                &&& readable <==> if data[at] == 8 || data[at] == 12 {
                    offset + start + length <= usize::MAX
                } else {
                    start - at + length <= usize::MAX
                }
            }
        }),
{
}

/// Function bodies come one after the other, each with its length first, until
/// all of them and all bytes of the code section are read.
pub proof fn function_bodies_follow_each_other(
    offset: u64,
    data: Seq<u8>,
    at: int,
    remaining: nat,
    length: nat,
    size: nat,
    start: int,
)
    requires
        remaining > 0,
        number(data, at, 0) == Some((size, start)),
    ensures
        ({
            let here = Place::Body { at, remaining, length };
            let next = place_after(data, here);
            let end = start + size;
            &&& can_be_read(offset, data, here) <==> start - at + size <= usize::MAX
            &&& end > data.len() || end - at > length ==> next is Done
            &&& end <= data.len() && end - at <= length ==> {
                &&& remaining > 1 ==> next == (Place::Body {
                    at: end,
                    remaining: (remaining - 1) as nat,
                    length: (length - (end - at)) as nat,
                })
                &&& remaining == 1 && end - at == length ==> next == (Place::Section { at: end })
                &&& remaining == 1 && end - at < length ==> next is Done
            }
        }),
{
}

/// The number that starts at `at`, and where it ends.
fn read_number(data: &[u8], at: usize, taken: u8) -> (read: Option<(u32, usize)>)
    requires
        taken <= 5,
        at <= data@.len(),
    ensures
        match number(data@, at as int, taken as nat) {
            Some((n, end)) => read == Some((n as u32, end as usize)) && n < bound(taken as nat)
                && at < end <= data@.len(),
            None => read is None,
        },
    decreases 5 - taken,
{
    if taken >= 5 || at >= data.len() {
        None
    } else if data[at] < 0x80 {
        if taken == 4 && data[at] >= 0x10 {
            None
        } else {
            Some((data[at] as u32, at + 1))
        }
    } else {
        match read_number(data, at + 1, taken + 1) {
            Some((high, end)) => Some(((data[at] - 0x80) as u32 + 0x80 * high, end)),
            None => None,
        }
    }
}

/// Where a payload starts that comes after the header of a module.
enum Cursor {
    Section { at: usize },
    Body { at: usize, remaining: u32, length: u32 },
    Done,
}

impl View for Cursor {
    type V = Place;

    closed spec fn view(&self) -> Place {
        match *self {
            Cursor::Section { at } => Place::Section { at: at as int },
            Cursor::Body { at, remaining, length } => Place::Body {
                at: at as int,
                remaining: remaining as nat,
                length: length as nat,
            },
            Cursor::Done => Place::Done,
        }
    }
}

impl Cursor {
    /// How far the input is behind.
    spec fn position(self, data: Seq<u8>) -> int {
        match self {
            Cursor::Section { at } => at as int,
            Cursor::Body { at, remaining, length } => at as int,
            Cursor::Done => data.len() as int + 1,
        }
    }

    /// Whether this is a place in the input.
    spec fn wf(self, data: Seq<u8>) -> bool {
        match self {
            Cursor::Section { at } => at <= data.len(),
            Cursor::Body { at, remaining, length } => at <= data.len() && remaining > 0,
            Cursor::Done => true,
        }
    }

    /// The place after a start of a code section, or after a function body.
    fn in_code(at: usize, remaining: u32, length: u32) -> (cursor: Cursor)
        ensures
            cursor@ == in_code(at as int, remaining as nat, length as nat),
            cursor is Done || cursor == (Cursor::Section { at }) || (cursor == (Cursor::Body {
                at,
                remaining,
                length,
            }) && remaining > 0),
    {
        if remaining > 0 {
            Cursor::Body { at, remaining, length }
        } else if length == 0 {
            Cursor::Section { at }
        } else {
            Cursor::Done
        }
    }

    /// The place after this one, if the payload here can be read.
    fn advance(&self, offset: u64, data: &[u8]) -> (next: Option<Cursor>)
        requires
            self.wf(data@),
            offsets_fit(offset, data@),
        ensures
            next is Some == can_be_read(offset, data@, self@),
            next matches Some(next) ==> {
                &&& next@ == place_after(data@, self@)
                &&& next.wf(data@)
                &&& !(self is Done) ==> next.position(data@) > self.position(data@)
            },
    {
        let last: u128 = usize::MAX as u128;
        match *self {
            Cursor::Section { at } => {
                if at >= data.len() || data[at] >= 0x80 {
                    return Some(Cursor::Done);
                }
                let id: u8 = data[at];
                let (length, start) = match read_number(data, at + 1, 0) {
                    Some(head) => head,
                    None => return Some(Cursor::Done),
                };
                let end: u128 = start as u128 + length as u128;
                if id == CODE_SECTION {
                    let (count, first) = match read_number(data, start, 0) {
                        Some(head) => head,
                        None => return Some(Cursor::Done),
                    };
                    if (first - start) as u128 > length as u128 {
                        return Some(Cursor::Done);
                    }
                    if offset as u128 + end > last {
                        return None;
                    }
                    return Some(Cursor::in_code(first, count, length - (first - start) as u32));
                }
                let told: bool = if id == START_SECTION || id == DATA_COUNT_SECTION {
                    offset as u128 + end <= last
                } else {
                    end - at as u128 <= last
                };
                if !told {
                    None
                } else if end <= data.len() as u128 {
                    Some(Cursor::Section { at: end as usize })
                } else {
                    Some(Cursor::Done)
                }
            },
            Cursor::Body { at, remaining, length } => {
                let (size, start) = match read_number(data, at, 0) {
                    Some(head) => head,
                    None => return Some(Cursor::Done),
                };
                let end: u128 = start as u128 + size as u128;
                if end - at as u128 > last {
                    None
                } else if end <= data.len() as u128 && end - at as u128 <= length as u128 {
                    let taken: u32 = (end - at as u128) as u32;
                    Some(Cursor::in_code(end as usize, remaining - 1, length - taken))
                } else {
                    Some(Cursor::Done)
                }
            },
            Cursor::Done => Some(Cursor::Done),
        }
    }
}

/// The number of payloads before the first one that cannot be read.
pub(crate) fn find_limit(offset: u64, data: &[u8]) -> (n: Option<usize>)
    requires
        offsets_fit(offset, data@),
    ensures
        n == limit(offset, data@),
        is_limit(offset, data@, n),
{
    let mut n: usize = 1;
    proof {
        assert(place_of(data@, 0) is Header);
        assert(place_of(data@, 1) == place_after(data@, place_of(data@, 0)));
    }
    if data.len() < 8 || data[6] != 0 || data[7] != 0 {
        proof {
            lemma_one_limit(offset, data@, Some(n));
        }
        return Some(n);
    }
    let mut cursor = Cursor::Section { at: 8 };
    while !matches!(cursor, Cursor::Done)
        invariant
            offsets_fit(offset, data@),
            cursor.wf(data@),
            cursor@ == place_of(data@, n as nat),
            n + 7 <= cursor.position(data@),
            forall|k: nat| k < n ==> can_be_read(offset, data@, #[trigger] place_of(data@, k)),
        decreases data@.len() + 1 - cursor.position(data@),
    {
        match cursor.advance(offset, data) {
            Some(next) => {
                proof {
                    assert(place_of(data@, (n + 1) as nat) == place_after(
                        data@,
                        place_of(data@, n as nat),
                    ));
                }
                cursor = next;
                n = n + 1;
            },
            None => {
                proof {
                    lemma_one_limit(offset, data@, Some(n));
                }
                return Some(n);
            },
        }
    }
    proof {
        assert forall|k: nat| can_be_read(offset, data@, #[trigger] place_of(data@, k)) by {
            if k >= n {
                lemma_done(data@, n as nat, k);
            }
        }
        lemma_one_limit(offset, data@, None);
    }
    None
}

} // verus!
