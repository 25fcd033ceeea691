//! Version numbers, read off the names of the references that exist.
use crate::github::{ref_views, Ref, RefView};
use crate::text::{
    all_digits, chars_of, decimal, is_digit, lemma_decimal_is_digits, lemma_decimal_round_trip,
    parse_from, parsed_u32,
};
use vstd::prelude::*;

verus! {

/// Where the text after the last `v` of `name` begins, counted from the
/// start of the name: zero exactly if `name` holds no `v`.
pub open spec fn version_start(name: Seq<char>) -> int
    decreases name.len(),
{
    if name.len() == 0 {
        0
    } else if name.last() == 'v' {
        name.len() as int
    } else {
        version_start(name.drop_last())
    }
}

/// The version that the name of a reference carries: the number written
/// after its last `v`, if a number is all that stands there. A name that
/// holds no `v` carries none, whatever it is made of.
pub open spec fn version_of(name: Seq<char>) -> Option<u32> {
    if version_start(name) == 0 {
        None
    } else {
        parsed_u32(name.skip(version_start(name)))
    }
}

/// The highest version that a name among `refs` carries, and zero where
/// none carries one.
pub open spec fn last_version(refs: Seq<RefView>) -> nat
    decreases refs.len(),
{
    if refs.len() == 0 {
        0
    } else {
        let before = last_version(refs.drop_last());
        match version_of(refs.last().full_name) {
            Some(v) if v > before => v as nat,
            _ => before,
        }
    }
}

/// The version to give to the next snapshot, given the references that
/// exist: one more than the highest that any of them carries.
pub open spec fn spec_next_version(refs: Seq<RefView>) -> nat {
    last_version(refs) + 1
}

/// The text after the last `v` holds no `v`, and a `v` stands just before
/// it, unless the name holds none.
pub proof fn lemma_version_start(name: Seq<char>)
    ensures
        0 <= version_start(name) <= name.len(),
        forall|i: int| version_start(name) <= i < name.len() ==> name[i] != 'v',
        version_start(name) > 0 ==> name[version_start(name) - 1] == 'v',
        version_start(name) == 0 <==> !name.contains('v'),
    decreases name.len(),
{
    if name.len() > 0 && name.last() != 'v' {
        let shorter = name.drop_last();
        lemma_version_start(shorter);
        assert forall|i: int| version_start(name) <= i < name.len() implies name[i] != 'v' by {
            if i < shorter.len() {
                assert(name[i] == shorter[i]);
            }
        }
        if version_start(name) > 0 {
            assert(name[version_start(name) - 1] == shorter[version_start(name) - 1]);
        }
    }
}

/// The highest version is carried by one of the names, unless it is zero,
/// and no name carries a higher one.
pub proof fn lemma_last_version_is_greatest(refs: Seq<RefView>)
    ensures
        forall|i: int|
            0 <= i < refs.len() ==> match version_of((#[trigger] refs[i]).full_name) {
                Some(v) => v <= last_version(refs),
                None => true,
            },
        last_version(refs) == 0 || exists|i: int|
            0 <= i < refs.len() && version_of((#[trigger] refs[i]).full_name) == Some(
                last_version(refs) as u32,
            ),
        last_version(refs) <= u32::MAX,
    decreases refs.len(),
{
    if refs.len() > 0 {
        let shorter = refs.drop_last();
        lemma_last_version_is_greatest(shorter);
        assert forall|i: int| 0 <= i < refs.len() implies match version_of(
            (#[trigger] refs[i]).full_name,
        ) {
            Some(v) => v <= last_version(refs),
            None => true,
        } by {
            if i < shorter.len() {
                assert(refs[i] == shorter[i]);
            }
        }
        if last_version(refs) != 0 {
            if last_version(refs) == last_version(shorter) {
                let i = choose|i: int|
                    0 <= i < shorter.len() && version_of((#[trigger] shorter[i]).full_name)
                        == Some(last_version(shorter) as u32);
                assert(refs[i] == shorter[i]);
            } else {
                assert(version_of(refs[refs.len() - 1].full_name) == Some(
                    last_version(refs) as u32,
                ));
            }
        }
    }
}

/// A name that holds no `v` carries no version, even where all of it is a
/// number.
pub proof fn lemma_no_v_no_version(name: Seq<char>)
    requires
        !name.contains('v'),
    ensures
        version_of(name) is None,
{
    lemma_version_start(name);
}

/// A name made of any text, a `v` and a text without `v` has the latter
/// as the text after its last `v`.
pub proof fn lemma_version_start_after_v(before: Seq<char>, after: Seq<char>)
    requires
        forall|i: int| 0 <= i < after.len() ==> after[i] != 'v',
    ensures
        version_start(before + seq!['v'] + after) == before.len() + 1,
        (before + seq!['v'] + after).skip(version_start(before + seq!['v'] + after)) == after,
    decreases after.len(),
{
    let name = before + seq!['v'] + after;
    if after.len() == 0 {
        assert(name.last() == 'v');
    } else {
        let shorter = after.drop_last();
        lemma_version_start_after_v(before, shorter);
        assert(name.last() == after.last());
        assert(name.drop_last() =~= before + seq!['v'] + shorter);
    }
    assert(name.skip(before.len() as int + 1) =~= after);
}

/// The name of a snapshot carries the version that it was made with,
/// whatever stands before its `v`.
pub proof fn lemma_snapshot_carries_version(before: Seq<char>, version: u32)
    ensures
        version_of(before + seq!['v'] + decimal(version as nat)) == Some(version),
{
    let numeral = decimal(version as nat);
    lemma_decimal_is_digits(version as nat);
    lemma_decimal_round_trip(version);
    assert forall|i: int| 0 <= i < numeral.len() implies numeral[i] != 'v' by {
        assert(is_digit(numeral[i]));
    }
    lemma_version_start_after_v(before, numeral);
}

/// The companion of a snapshot, whose name ends in `-base`, carries no
/// version.
pub proof fn lemma_companion_carries_no_version(before: Seq<char>, version: nat)
    ensures
        version_of(before + seq!['v'] + decimal(version) + seq!['-', 'b', 'a', 's', 'e'])
            is None,
{
    let numeral = decimal(version);
    let after = numeral + seq!['-', 'b', 'a', 's', 'e'];
    lemma_decimal_is_digits(version);
    assert forall|i: int| 0 <= i < after.len() implies after[i] != 'v' by {
        if i < numeral.len() {
            assert(is_digit(numeral[i]));
            assert(after[i] == numeral[i]);
        }
    }
    lemma_version_start_after_v(before, after);
    assert(before + seq!['v'] + numeral + seq!['-', 'b', 'a', 's', 'e'] =~= before + seq!['v']
        + after);
    assert(is_digit(numeral[0]));
    assert(after[0] == numeral[0]);
    assert(!is_digit(after[numeral.len() as int]));
    assert(!all_digits(after));
}

/// The version that `name` carries: none where it holds no `v`.
pub fn ref_version(name: &str) -> (version: Option<u32>)
    ensures
        version == version_of(name@),
{
    let chars = chars_of(name);
    let mut start: usize = chars.len();
    assert(chars@.take(start as int) =~= chars@);
    while start > 0 && chars[start - 1] != 'v'
        invariant
            start <= chars.len(),
            version_start(chars@) == version_start(chars@.take(start as int)),
        decreases start,
    {
        assert(chars@.take(start as int).drop_last() =~= chars@.take(start - 1));
        start = start - 1;
    }
    if start == 0 {
        return None;
    }
    assert(chars@.take(start as int).last() == 'v');
    parse_from(&chars, start)
}

/// The version to give to the next snapshot, given the references that
/// exist.
pub fn next_version(refs: &[Ref]) -> (version: u64)
    ensures
        version == spec_next_version(ref_views(refs@)),
{
    let mut last: u32 = 0;
    let mut i: usize = 0;
    assert(ref_views(refs@).take(0) =~= Seq::<RefView>::empty());
    while i < refs.len()
        invariant
            i <= refs.len(),
            last == last_version(ref_views(refs@).take(i as int)),
        decreases refs.len() - i,
    {
        let ghost after = ref_views(refs@).take(i + 1);
        assert(after.drop_last() =~= ref_views(refs@).take(i as int));
        assert(after.last() == refs[i as int]@);
        if let Some(v) = ref_version(refs[i].full_name.as_str()) {
            if v > last {
                last = v;
            }
        }
        i = i + 1;
    }
    assert(ref_views(refs@).take(i as int) =~= ref_views(refs@));
    last as u64 + 1
}

} // verus!
