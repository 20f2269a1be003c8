//! Release tags and the runtime version that each one stands for.
//!
//! A stable tag reads `v<major>.<minor>.<patch>` or `v<major>.<minor>.<patch>-<build>`; a
//! prerelease tag is a marker of fixed length followed by the version itself. Either way the tag
//! becomes one unsigned number that can be held against the version a chain reports.

use vstd::prelude::*;
use vstd::string::StringSliceAdditionalSpecFns;
use crate::number::{parse_field, parse_u32};
use crate::WatchError;

verus! {

/// The byte `v` that opens a stable tag.
pub const MARKER: u8 = 0x76;

/// The byte `.` between the fields of a stable tag.
pub const DOT: u8 = 0x2e;

/// The byte `-` before the build number of a stable tag.
pub const HYPHEN: u8 = 0x2d;

/// How many bytes the channel marker of a prerelease tag takes, its separator included.
pub const PRERELEASE_PREFIX_LEN: usize = 4;

/// Which of the two tag syntaxes a caller is asking for. The syntax is never guessed from the
/// tag: the same text may fit both.
#[derive(Clone, Copy, Debug, PartialEq, Eq, Structural)]
pub enum ChannelKind {
    Stable,
    Prerelease,
}

/// The index of the first `b` in `s`, or the length of `s` when it holds none.
pub open spec fn find(s: Seq<u8>, b: u8) -> int
    decreases s.len(),
{
    if s.len() == 0 || s[0] == b {
        0
    } else {
        1 + find(s.skip(1), b)
    }
}

/// `i` is where `find` stops in `s`: no `b` before it, and a `b` at it unless `s` ends there.
pub open spec fn is_first(s: Seq<u8>, b: u8, i: int) -> bool {
    &&& 0 <= i <= s.len()
    &&& forall|j: int| 0 <= j < i ==> #[trigger] s[j] != b
    &&& i < s.len() ==> s[i] == b
}

/// `find` returns the first occurrence.
pub proof fn lemma_find_is_first(s: Seq<u8>, b: u8)
    ensures
        is_first(s, b, find(s, b)),
    decreases s.len(),
{
    if s.len() == 0 || s[0] == b {
    } else {
        let rest = s.skip(1);
        lemma_find_is_first(rest, b);
        let i = find(s, b);
        assert forall|j: int| 0 <= j < i implies #[trigger] s[j] != b by {
            if j > 0 {
                assert(s[j] == rest[j - 1]);
            }
        }
        if i < s.len() {
            assert(s[i] == rest[i - 1]);
        }
    }
}

/// There is only one first occurrence.
pub proof fn lemma_first_is_find(s: Seq<u8>, b: u8, i: int)
    requires
        is_first(s, b, i),
    ensures
        find(s, b) == i,
{
    lemma_find_is_first(s, b);
    let k = find(s, b);
    if k < i {
        assert(s[k] != b);
    } else if i < k {
        assert(s[i] != b);
    }
}

/// The four fields of a stable tag, as the bytes between its separators.
pub struct StableFields {
    pub major: Seq<u8>,
    pub minor: Seq<u8>,
    pub patch: Seq<u8>,
    pub build: Option<Seq<u8>>,
}

/// Cuts a stable tag at its separators: the marker, then everything up to the first dot, then
/// everything up to the next dot; what is left is the patch, up to a hyphen if there is one, and
/// after the hyphen the build. `None` where the marker or one of the two dots is missing.
pub open spec fn split_stable(tag: Seq<u8>) -> Option<StableFields> {
    if tag.len() == 0 || tag[0] != MARKER {
        None
    } else {
        let body = tag.skip(1);
        let d1 = find(body, DOT);
        if d1 == body.len() {
            None
        } else {
            let tail = body.skip(d1 + 1);
            let d2 = find(tail, DOT);
            if d2 == tail.len() {
                None
            } else {
                let last = tail.skip(d2 + 1);
                let h = find(last, HYPHEN);
                Some(
                    (StableFields {
                        major: body.take(d1),
                        minor: tail.take(d2),
                        patch: last.take(h),
                        build: if h == last.len() {
                            None
                        } else {
                            Some(last.skip(h + 1))
                        },
                    }),
                )
            }
        }
    }
}

/// The positional weight of the four components. Each component keeps its fixed weight however
/// large it is, so a patch of ten and a minor of one weigh the same.
pub open spec fn stable_value(major: int, minor: int, patch: int, build: int) -> int {
    major * 1000 + minor * 100 + patch * 10 + build
}

/// The build number of a stable tag: zero where the tag has none.
pub open spec fn parse_build(build: Option<Seq<u8>>) -> Option<u32> {
    match build {
        None => Some(0u32),
        Some(b) => parse_u32(b),
    }
}

/// The version of a stable tag: every field a number and the weighted sum within 32 bits, or
/// the tag is malformed.
pub open spec fn decode_stable(tag: Seq<u8>) -> Result<u32, WatchError> {
    match split_stable(tag) {
        None => Err(WatchError::MalformedTag),
        Some(f) => match (
            parse_u32(f.major),
            parse_u32(f.minor),
            parse_u32(f.patch),
            parse_build(f.build),
        ) {
            (Some(major), Some(minor), Some(patch), Some(build)) => {
                let value = stable_value(major as int, minor as int, patch as int, build as int);
                if value <= u32::MAX {
                    Ok(value as u32)
                } else {
                    Err(WatchError::MalformedTag)
                }
            },
            _ => Err(WatchError::MalformedTag),
        },
    }
}

/// The version of a prerelease tag: the number written after the first `prefix_len` bytes.
pub open spec fn decode_prerelease(tag: Seq<u8>, prefix_len: nat) -> Result<u32, WatchError> {
    if tag.len() < prefix_len {
        Err(WatchError::MalformedTag)
    } else {
        match parse_u32(tag.skip(prefix_len as int)) {
            Some(value) => Ok(value),
            None => Err(WatchError::MalformedTag),
        }
    }
}

/// The version of a tag under the syntax that the caller names.
pub open spec fn decode_tag(tag: Seq<u8>, kind: ChannelKind) -> Result<u32, WatchError> {
    match kind {
        ChannelKind::Stable => decode_stable(tag),
        ChannelKind::Prerelease => decode_prerelease(tag, PRERELEASE_PREFIX_LEN as nat),
    }
}

/// The syntax that goes with a prerelease flag.
pub open spec fn kind_of(prerelease: bool) -> ChannelKind {
    if prerelease {
        ChannelKind::Prerelease
    } else {
        ChannelKind::Stable
    }
}

/// Looks for `b` in `bytes` from `start` up to `end`.
pub fn find_byte(bytes: &[u8], start: usize, end: usize, b: u8) -> (at: usize)
    requires
        start <= end <= bytes@.len(),
    ensures
        start <= at <= end,
        at - start == find(bytes@.subrange(start as int, end as int), b),
{
    let ghost window = bytes@.subrange(start as int, end as int);
    let mut i: usize = start;
    while i < end && bytes[i] != b
        invariant
            start <= i <= end <= bytes@.len(),
            window == bytes@.subrange(start as int, end as int),
            forall|j: int| 0 <= j < i - start ==> #[trigger] window[j] != b,
        decreases end - i,
    {
        i = i + 1;
    }
    proof {
        lemma_first_is_find(window, b, i - start);
    }
    i
}

/// Decodes the bytes of a stable tag.
pub fn decode_stable_bytes(tag: &[u8]) -> (r: Result<u32, WatchError>)
    ensures
        r == decode_stable(tag@),
{
    let n: usize = tag.len();
    if n == 0 || tag[0] != MARKER {
        return Err(WatchError::MalformedTag);
    }
    let ghost body = tag@.skip(1);
    let dot1: usize = find_byte(tag, 1, n, DOT);
    assert(tag@.subrange(1, n as int) =~= body);
    if dot1 == n {
        return Err(WatchError::MalformedTag);
    }
    let ghost tail = body.skip(dot1 as int);
    let dot2: usize = find_byte(tag, dot1 + 1, n, DOT);
    assert(tag@.subrange(dot1 + 1, n as int) =~= tail);
    if dot2 == n {
        return Err(WatchError::MalformedTag);
    }
    let ghost last = tail.skip(dot2 - dot1);
    let hyphen: usize = find_byte(tag, dot2 + 1, n, HYPHEN);
    assert(tag@.subrange(dot2 + 1, n as int) =~= last);
    let ghost f = split_stable(tag@)->0;
    assert(tag@.subrange(1, dot1 as int) =~= f.major);
    assert(tag@.subrange(dot1 + 1, dot2 as int) =~= f.minor);
    assert(tag@.subrange(dot2 + 1, hyphen as int) =~= f.patch);
    let major = parse_field(tag, 1, dot1);
    let minor = parse_field(tag, dot1 + 1, dot2);
    let patch = parse_field(tag, dot2 + 1, hyphen);
    let build = if hyphen == n {
        Some(0u32)
    } else {
        assert(tag@.subrange(hyphen + 1, n as int) =~= f.build->0);
        parse_field(tag, hyphen + 1, n)
    };
    match (major, minor, patch, build) {
        (Some(major), Some(minor), Some(patch), Some(build)) => {
            let value: u64 = (major as u64) * 1000 + (minor as u64) * 100 + (patch as u64) * 10
                + (build as u64);
            if value <= u32::MAX as u64 {
                Ok(value as u32)
            } else {
                Err(WatchError::MalformedTag)
            }
        },
        _ => Err(WatchError::MalformedTag),
    }
}

/// Decodes the bytes of a prerelease tag whose channel marker takes `prefix_len` bytes.
pub fn decode_prerelease_bytes(tag: &[u8], prefix_len: usize) -> (r: Result<u32, WatchError>)
    ensures
        r == decode_prerelease(tag@, prefix_len as nat),
{
    let n: usize = tag.len();
    if n < prefix_len {
        return Err(WatchError::MalformedTag);
    }
    assert(tag@.subrange(prefix_len as int, n as int) =~= tag@.skip(prefix_len as int));
    match parse_field(tag, prefix_len, n) {
        Some(value) => Ok(value),
        None => Err(WatchError::MalformedTag),
    }
}

/// Decodes `tag` under the syntax `kind`.
pub fn decode(tag: &str, kind: ChannelKind) -> (r: Result<u32, WatchError>)
    ensures
        r == decode_tag(tag.spec_bytes(), kind),
{
    let bytes = tag.as_bytes();
    match kind {
        ChannelKind::Stable => decode_stable_bytes(bytes),
        ChannelKind::Prerelease => decode_prerelease_bytes(bytes, PRERELEASE_PREFIX_LEN),
    }
}

/// The runtime version that `tag` stands for, read as a prerelease tag where `prerelease` is set
/// and as a stable tag where it is not.
pub fn tag2spec_version(tag: &str, prerelease: bool) -> (r: Result<u32, WatchError>)
    ensures
        r == decode_tag(tag.spec_bytes(), kind_of(prerelease)),
{
    if prerelease {
        decode(tag, ChannelKind::Prerelease)
    } else {
        decode(tag, ChannelKind::Stable)
    }
}

} // verus!
