//! What holds of the tag codec on every tag: well-formed tags decode to the positional value of
//! their fields, and nothing else decodes at all.

use vstd::prelude::*;
use crate::codec::{
    decode_prerelease, decode_stable, find, lemma_find_is_first, lemma_first_is_find,
    split_stable, stable_value, StableFields, DOT, HYPHEN, MARKER,
};
use crate::number::{all_digits, digits_value, is_numeric, ZERO};

verus! {

/// The text of a stable tag with the given fields.
pub open spec fn stable_tag(
    major: Seq<u8>,
    minor: Seq<u8>,
    patch: Seq<u8>,
    build: Option<Seq<u8>>,
) -> Seq<u8> {
    seq![MARKER] + major + seq![DOT] + minor + seq![DOT] + patch + build_suffix(build)
}

/// The end of a stable tag: a hyphen and the build, or nothing.
pub open spec fn build_suffix(build: Option<Seq<u8>>) -> Seq<u8> {
    match build {
        None => Seq::<u8>::empty(),
        Some(b) => seq![HYPHEN] + b,
    }
}

/// The value of an optional build field made of digits.
pub open spec fn build_value(build: Option<Seq<u8>>) -> nat {
    match build {
        None => 0,
        Some(b) => digits_value(b),
    }
}

/// The four fields are numbers: each a non-empty run of digits.
pub open spec fn fields_numeric(
    major: Seq<u8>,
    minor: Seq<u8>,
    patch: Seq<u8>,
    build: Option<Seq<u8>>,
) -> bool {
    &&& is_numeric(major)
    &&& is_numeric(minor)
    &&& is_numeric(patch)
    &&& build matches Some(b) ==> is_numeric(b)
}

/// How many times `b` occurs in `s`.
pub open spec fn count(s: Seq<u8>, b: u8) -> nat
    decreases s.len(),
{
    if s.len() == 0 {
        0
    } else {
        count(s.drop_last(), b) + if s.last() == b {
            1nat
        } else {
            0nat
        }
    }
}

/// The one-digit field that writes `d`.
pub open spec fn digit_field(d: u8) -> Seq<u8> {
    seq![(ZERO + d) as u8]
}

/// Occurrences add up over concatenation.
pub proof fn lemma_count_concat(a: Seq<u8>, c: Seq<u8>, b: u8)
    ensures
        count(a + c, b) == count(a, b) + count(c, b),
    decreases c.len(),
{
    if c.len() == 0 {
        assert(a + c =~= a);
    } else {
        assert((a + c).drop_last() =~= a + c.drop_last());
        lemma_count_concat(a, c.drop_last(), b);
    }
}

/// A byte that is nowhere in `s` occurs zero times.
pub proof fn lemma_count_absent(s: Seq<u8>, b: u8)
    requires
        forall|i: int| 0 <= i < s.len() ==> #[trigger] s[i] != b,
    ensures
        count(s, b) == 0,
    decreases s.len(),
{
    if s.len() > 0 {
        let shorter = s.drop_last();
        assert forall|i: int| 0 <= i < shorter.len() implies #[trigger] shorter[i] != b by {
            assert(shorter[i] == s[i]);
        }
        lemma_count_absent(shorter, b);
    }
}

/// A sequence of one byte holds that byte once and no other.
pub proof fn lemma_count_single(x: u8, b: u8)
    ensures
        count(seq![x], b) == if x == b {
            1nat
        } else {
            0nat
        },
{
    assert(seq![x].drop_last() =~= Seq::<u8>::empty());
    assert(count(seq![x].drop_last(), b) == 0);
}

/// Where `head` holds no `b`, the first `b` of `head`, `b`, `rest` is right after `head`.
pub proof fn lemma_find_after(head: Seq<u8>, b: u8, rest: Seq<u8>)
    requires
        forall|i: int| 0 <= i < head.len() ==> #[trigger] head[i] != b,
    ensures
        find(head + seq![b] + rest, b) == head.len(),
        (head + seq![b] + rest).take(head.len() as int) =~= head,
        (head + seq![b] + rest).skip(head.len() as int + 1) =~= rest,
{
    let s = head + seq![b] + rest;
    assert forall|j: int| 0 <= j < head.len() implies #[trigger] s[j] != b by {
        assert(s[j] == head[j]);
    }
    assert(s[head.len() as int] == b);
    lemma_first_is_find(s, b, head.len() as int);
}

/// Where `s` holds no `b`, the search runs to its end.
pub proof fn lemma_find_none(s: Seq<u8>, b: u8)
    requires
        forall|i: int| 0 <= i < s.len() ==> #[trigger] s[i] != b,
    ensures
        find(s, b) == s.len(),
{
    lemma_first_is_find(s, b, s.len() as int);
}

/// A tag put together from four numeric fields is cut back into those fields.
pub proof fn lemma_split_of_stable_tag(
    major: Seq<u8>,
    minor: Seq<u8>,
    patch: Seq<u8>,
    build: Option<Seq<u8>>,
)
    requires
        fields_numeric(major, minor, patch, build),
    ensures
        split_stable(stable_tag(major, minor, patch, build)) == Some(
            (StableFields { major, minor, patch, build }),
        ),
{
    let tag = stable_tag(major, minor, patch, build);
    let body = tag.skip(1);
    let after_major = minor + seq![DOT] + patch + build_suffix(build);
    assert(body =~= major + seq![DOT] + after_major);
    lemma_find_after(major, DOT, after_major);
    let tail = body.skip(major.len() as int + 1);
    let after_minor = patch + build_suffix(build);
    assert(tail =~= minor + seq![DOT] + after_minor);
    lemma_find_after(minor, DOT, after_minor);
    let last = tail.skip(minor.len() as int + 1);
    assert(last =~= after_minor);
    match build {
        None => {
            assert(last =~= patch);
            lemma_find_none(patch, HYPHEN);
            assert(last.take(patch.len() as int) =~= patch);
        },
        Some(b) => {
            assert(last =~= patch + seq![HYPHEN] + b);
            lemma_find_after(patch, HYPHEN, b);
        },
    }
    let f = split_stable(tag)->0;
    assert(f.major =~= major);
    assert(f.minor =~= minor);
    assert(f.patch =~= patch);
}

/// Every well-formed stable tag, with or without a build, decodes to
/// `major * 1000 + minor * 100 + patch * 10 + build`, as long as that sum fits in 32 bits.
pub proof fn lemma_stable_tag_decodes(
    major: Seq<u8>,
    minor: Seq<u8>,
    patch: Seq<u8>,
    build: Option<Seq<u8>>,
)
    requires
        fields_numeric(major, minor, patch, build),
        stable_value(
            digits_value(major) as int,
            digits_value(minor) as int,
            digits_value(patch) as int,
            build_value(build) as int,
        ) <= u32::MAX,
    ensures
        decode_stable(stable_tag(major, minor, patch, build)) == Ok::<u32, crate::WatchError>(
            stable_value(
                digits_value(major) as int,
                digits_value(minor) as int,
                digits_value(patch) as int,
                build_value(build) as int,
            ) as u32,
        ),
{
    lemma_split_of_stable_tag(major, minor, patch, build);
}

/// One digit is worth itself.
pub proof fn lemma_digit_field(d: u8)
    requires
        d <= 9,
    ensures
        is_numeric(digit_field(d)),
        digits_value(digit_field(d)) == d,
{
    let s = digit_field(d);
    assert(s.drop_last() =~= Seq::<u8>::empty());
    assert(digits_value(s.drop_last()) == 0);
}

/// A stable tag of three one-digit components decodes to
/// `major * 1000 + minor * 100 + patch * 10`.
pub proof fn lemma_single_digit_tag_decodes(major: u8, minor: u8, patch: u8)
    requires
        major <= 9,
        minor <= 9,
        patch <= 9,
    ensures
        decode_stable(
            stable_tag(digit_field(major), digit_field(minor), digit_field(patch), None),
        ) == Ok::<u32, crate::WatchError>((major * 1000 + minor * 100 + patch * 10) as u32),
{
    lemma_digit_field(major);
    lemma_digit_field(minor);
    lemma_digit_field(patch);
    lemma_stable_tag_decodes(
        digit_field(major),
        digit_field(minor),
        digit_field(patch),
        None,
    );
}

/// A stable tag of three one-digit components and a one-digit build decodes to
/// `major * 1000 + minor * 100 + patch * 10 + build`.
pub proof fn lemma_single_digit_build_tag_decodes(major: u8, minor: u8, patch: u8, build: u8)
    requires
        major <= 9,
        minor <= 9,
        patch <= 9,
        build <= 9,
    ensures
        decode_stable(
            stable_tag(
                digit_field(major),
                digit_field(minor),
                digit_field(patch),
                Some(digit_field(build)),
            ),
        ) == Ok::<u32, crate::WatchError>(
            (major * 1000 + minor * 100 + patch * 10 + build) as u32,
        ),
{
    lemma_digit_field(major);
    lemma_digit_field(minor);
    lemma_digit_field(patch);
    lemma_digit_field(build);
    lemma_stable_tag_decodes(
        digit_field(major),
        digit_field(minor),
        digit_field(patch),
        Some(digit_field(build)),
    );
}

/// A prerelease tag made of a marker and a run of digits decodes to the number that the digits
/// write, whatever the marker holds, as long as the number fits in 32 bits.
pub proof fn lemma_prerelease_tag_decodes(prefix: Seq<u8>, digits: Seq<u8>)
    requires
        is_numeric(digits),
        digits_value(digits) <= u32::MAX,
    ensures
        decode_prerelease(prefix + digits, prefix.len()) == Ok::<u32, crate::WatchError>(
            digits_value(digits) as u32,
        ),
{
    assert((prefix + digits).skip(prefix.len() as int) =~= digits);
}

/// A stable tag decodes only if it is well formed: the marker, then three numeric fields
/// between two dots, then nothing or a hyphen and a numeric build.
pub proof fn lemma_stable_decodes_only_well_formed(tag: Seq<u8>)
    requires
        decode_stable(tag) is Ok,
    ensures
        split_stable(tag) matches Some(f) && fields_numeric(f.major, f.minor, f.patch, f.build)
            && tag == stable_tag(f.major, f.minor, f.patch, f.build),
{
    let f = split_stable(tag)->0;
    let body = tag.skip(1);
    lemma_find_is_first(body, DOT);
    let d1 = find(body, DOT);
    let tail = body.skip(d1 + 1);
    lemma_find_is_first(tail, DOT);
    let d2 = find(tail, DOT);
    let last = tail.skip(d2 + 1);
    lemma_find_is_first(last, HYPHEN);
    assert(tag =~= stable_tag(f.major, f.minor, f.patch, f.build));
}

/// A stable tag without its marker, or with more or fewer than two dots, is malformed.
pub proof fn lemma_stable_needs_separators(tag: Seq<u8>)
    requires
        tag.len() == 0 || tag[0] != MARKER || count(tag, DOT) != 2,
    ensures
        decode_stable(tag) == Err::<u32, crate::WatchError>(crate::WatchError::MalformedTag),
{
    if decode_stable(tag) is Ok {
        lemma_stable_decodes_only_well_formed(tag);
        let f = split_stable(tag)->0;
        let a = seq![MARKER] + f.major;
        let b = a + seq![DOT];
        let c = b + f.minor;
        let d = c + seq![DOT];
        let e = d + f.patch;
        lemma_count_single(MARKER, DOT);
        lemma_count_single(DOT, DOT);
        lemma_count_single(HYPHEN, DOT);
        lemma_count_absent(f.major, DOT);
        lemma_count_absent(f.minor, DOT);
        lemma_count_absent(f.patch, DOT);
        lemma_count_concat(seq![MARKER], f.major, DOT);
        lemma_count_concat(a, seq![DOT], DOT);
        lemma_count_concat(b, f.minor, DOT);
        lemma_count_concat(c, seq![DOT], DOT);
        lemma_count_concat(d, f.patch, DOT);
        lemma_count_concat(e, build_suffix(f.build), DOT);
        match f.build {
            None => {},
            Some(x) => {
                lemma_count_absent(x, DOT);
                lemma_count_concat(seq![HYPHEN], x, DOT);
            },
        }
        assert(count(tag, DOT) == 2);
    }
}

/// A stable tag with a field that is empty or holds anything but digits is malformed.
pub proof fn lemma_stable_needs_numeric_fields(tag: Seq<u8>)
    requires
        split_stable(tag) matches Some(f) ==> !fields_numeric(f.major, f.minor, f.patch, f.build),
    ensures
        decode_stable(tag) == Err::<u32, crate::WatchError>(crate::WatchError::MalformedTag),
{
}

/// A prerelease tag with nothing after its marker, or with anything but digits there, is
/// malformed; so is one shorter than the marker.
pub proof fn lemma_prerelease_needs_digits(tag: Seq<u8>, prefix_len: nat)
    requires
        tag.len() <= prefix_len || !all_digits(tag.skip(prefix_len as int)),
    ensures
        decode_prerelease(tag, prefix_len) == Err::<u32, crate::WatchError>(
            crate::WatchError::MalformedTag,
        ),
{
}

} // verus!
