//! Queue-family selection and adapter scoring.
//!
//! The device setup picks, out of the hardware's queue family table, one
//! family per logical queue: the first family exposing graphics, a compute
//! family without graphics (preferring one that also lacks transfer, for a
//! dedicated async-compute queue), and symmetrically a transfer family
//! preferring one without compute. A family table entry is a pair of the
//! family's index and its capability flags.

use vstd::prelude::*;
use crate::GpuError;
use crate::command::CommandType;

verus! {

/// Graphics capability bit of a queue family.
pub const QUEUE_FLAG_GRAPHICS: u32 = 0x1;

/// Compute capability bit of a queue family.
pub const QUEUE_FLAG_COMPUTE: u32 = 0x2;

/// Transfer capability bit of a queue family.
pub const QUEUE_FLAG_TRANSFER: u32 = 0x4;

/// A family with flags `flags` exposes every capability in `desired`.
pub open spec fn flags_satisfy(flags: u32, desired: u32) -> bool {
    flags & desired == desired
}

/// The index of the first family in `s` exposing every desired capability.
pub open spec fn first_match(s: Seq<(usize, u32)>, desired: u32) -> Option<usize>
    decreases s.len(),
{
    if s.len() == 0 {
        None
    } else if flags_satisfy(s[0].1, desired) {
        Some(s[0].0)
    } else {
        first_match(s.drop_first(), desired)
    }
}

/// A family that exposes the desired capabilities, lacks graphics, and also
/// lacks the undesired capabilities: the dedicated pick.
pub open spec fn dedicated_family(flags: u32, desired: u32, undesired: u32) -> bool {
    &&& flags_satisfy(flags, desired)
    &&& flags & QUEUE_FLAG_GRAPHICS == 0
    &&& flags & undesired == 0
}

/// A family that exposes the desired capabilities and lacks graphics: the
/// fallback pick when no dedicated family exists.
pub open spec fn separate_family(flags: u32, desired: u32) -> bool {
    &&& flags_satisfy(flags, desired)
    &&& flags & QUEUE_FLAG_GRAPHICS == 0
}

/// The separate-queue selection over the remaining table `s`, with `acc` the
/// latest fallback seen so far: the first dedicated family wins; otherwise the
/// last fallback family; otherwise whatever was accumulated.
pub open spec fn separate_match(
    s: Seq<(usize, u32)>,
    desired: u32,
    undesired: u32,
    acc: Option<usize>,
) -> Option<usize>
    decreases s.len(),
{
    if s.len() == 0 {
        acc
    } else if dedicated_family(s[0].1, desired, undesired) {
        Some(s[0].0)
    } else if separate_family(s[0].1, desired) {
        separate_match(s.drop_first(), desired, undesired, Some(s[0].0))
    } else {
        separate_match(s.drop_first(), desired, undesired, acc)
    }
}

/// The stored index of the first queue family exposing every capability in
/// `desired_flags`, if any.
pub fn get_first_queue_index(
    queue_family_properties: &[(usize, u32)],
    desired_flags: u32,
) -> (r: Option<usize>)
    ensures
        r == first_match(queue_family_properties@, desired_flags),
{
    let n = queue_family_properties.len();
    let mut i: usize = 0;
    proof {
        assert(queue_family_properties@.skip(0) =~= queue_family_properties@);
    }
    while i < n
        invariant
            i <= n,
            n == queue_family_properties@.len(),
            first_match(queue_family_properties@, desired_flags) == first_match(
                queue_family_properties@.skip(i as int),
                desired_flags,
            ),
        decreases n - i,
    {
        let (idx, flags) = queue_family_properties[i];
        proof {
            assert(queue_family_properties@.skip(i as int)[0] == queue_family_properties@[i as int]);
            assert(queue_family_properties@.skip(i as int).drop_first() =~= queue_family_properties@.skip(
                i + 1,
            ));
        }
        if (flags & desired_flags) == desired_flags {
            return Some(idx);
        }
        i = i + 1;
    }
    proof {
        assert(queue_family_properties@.skip(n as int) =~= Seq::<(usize, u32)>::empty());
    }
    None
}

/// The stored index of a non-graphics queue family exposing `desired_flags`:
/// the first one that also lacks `undesired_flags`, else the last one that
/// merely lacks graphics, else none.
pub fn get_separate_queue_index(
    queue_family_properties: &[(usize, u32)],
    desired_flags: u32,
    undesired_flags: u32,
) -> (r: Option<usize>)
    ensures
        r == separate_match(queue_family_properties@, desired_flags, undesired_flags, None),
{
    let n = queue_family_properties.len();
    let mut index: Option<usize> = None;
    let mut i: usize = 0;
    proof {
        assert(queue_family_properties@.skip(0) =~= queue_family_properties@);
    }
    while i < n
        invariant
            i <= n,
            n == queue_family_properties@.len(),
            separate_match(queue_family_properties@, desired_flags, undesired_flags, None)
                == separate_match(
                queue_family_properties@.skip(i as int),
                desired_flags,
                undesired_flags,
                index,
            ),
        decreases n - i,
    {
        let (idx, flags) = queue_family_properties[i];
        proof {
            assert(queue_family_properties@.skip(i as int)[0] == queue_family_properties@[i as int]);
            assert(queue_family_properties@.skip(i as int).drop_first() =~= queue_family_properties@.skip(
                i + 1,
            ));
        }
        if ((flags & desired_flags) == desired_flags) && (flags & QUEUE_FLAG_GRAPHICS) == 0 {
            if (flags & undesired_flags) == 0 {
                return Some(idx);
            } else {
                index = Some(idx);
            }
        }
        i = i + 1;
    }
    proof {
        assert(queue_family_properties@.skip(n as int) =~= Seq::<(usize, u32)>::empty());
    }
    index
}

/// The family picked for each logical queue, in table order: graphics,
/// transfer, compute.
pub open spec fn spec_queue_family_selection(s: Seq<(usize, u32)>) -> (
    Option<usize>,
    Option<usize>,
    Option<usize>,
) {
    (
        first_match(s, QUEUE_FLAG_GRAPHICS),
        separate_match(s, QUEUE_FLAG_TRANSFER, QUEUE_FLAG_COMPUTE, None),
        separate_match(s, QUEUE_FLAG_COMPUTE, QUEUE_FLAG_TRANSFER, None),
    )
}

/// Pick one queue family per logical queue out of the hardware table.
///
/// Fails with a capability-absence error exactly when some logical queue has
/// no admissible family; capability absence is fatal at device construction.
pub fn select_queue_families(queue_family_properties: &[(usize, u32)]) -> (r: Result<
    [usize; 3],
    GpuError,
>)
    ensures
        match r {
            Ok(picks) => {
                &&& spec_queue_family_selection(queue_family_properties@) == (
                    Some(picks@[CommandType::Graphics.spec_index()]),
                    Some(picks@[CommandType::Transfer.spec_index()]),
                    Some(picks@[CommandType::Compute.spec_index()]),
                )
            },
            Err(e) => {
                &&& e == GpuError::CapabilityAbsence
                &&& {
                    let (g, t, c) = spec_queue_family_selection(queue_family_properties@);
                    g is None || t is None || c is None
                }
            },
        },
{
    let graphics = get_first_queue_index(queue_family_properties, QUEUE_FLAG_GRAPHICS);
    let transfer = get_separate_queue_index(
        queue_family_properties,
        QUEUE_FLAG_TRANSFER,
        QUEUE_FLAG_COMPUTE,
    );
    let compute = get_separate_queue_index(
        queue_family_properties,
        QUEUE_FLAG_COMPUTE,
        QUEUE_FLAG_TRANSFER,
    );
    match (graphics, transfer, compute) {
        (Some(g), Some(t), Some(c)) => Ok([g, t, c]),
        _ => Err(GpuError::CapabilityAbsence),
    }
}

/// What a first-match pick means: the matching family at the least matching
/// position, and none exactly when no family matches.
pub proof fn lemma_first_match_characterization(s: Seq<(usize, u32)>, desired: u32)
    ensures
        first_match(s, desired) is Some ==> exists|j: int|
            {
                &&& 0 <= j < s.len()
                &&& flags_satisfy(#[trigger] s[j].1, desired)
                &&& first_match(s, desired) == Some(s[j].0)
                &&& forall|k: int| 0 <= k < j ==> !flags_satisfy(#[trigger] s[k].1, desired)
            },
        first_match(s, desired) is None <==> forall|j: int|
            0 <= j < s.len() ==> !flags_satisfy(#[trigger] s[j].1, desired),
    decreases s.len(),
{
    if s.len() == 0 {
    } else if flags_satisfy(s[0].1, desired) {
        assert(first_match(s, desired) == Some(s[0].0));
    } else {
        let t = s.drop_first();
        lemma_first_match_characterization(t, desired);
        assert forall|j: int| 0 <= j < t.len() implies t[j] == s[j + 1] by {}
        if first_match(s, desired) is Some {
            let j = choose|j: int|
                {
                    &&& 0 <= j < t.len()
                    &&& flags_satisfy(#[trigger] t[j].1, desired)
                    &&& first_match(t, desired) == Some(t[j].0)
                    &&& forall|k: int| 0 <= k < j ==> !flags_satisfy(#[trigger] t[k].1, desired)
                };
            assert(flags_satisfy(s[j + 1].1, desired));
            assert(first_match(s, desired) == Some(s[j + 1].0));
            assert forall|k: int| 0 <= k < j + 1 implies !flags_satisfy(
                #[trigger] s[k].1,
                desired,
            ) by {
                if k > 0 {
                    assert(s[k] == t[k - 1]);
                }
            }
        } else {
            assert forall|j: int| 0 <= j < s.len() implies !flags_satisfy(
                #[trigger] s[j].1,
                desired,
            ) by {
                if j > 0 {
                    assert(s[j] == t[j - 1]);
                }
            }
        }
    }
}

/// No family of the table's tail is dedicated or separate beyond what the
/// whole table shows, and conversely; the head is handled by its caller.
proof fn lemma_tail_family_bridge(s: Seq<(usize, u32)>, desired: u32, undesired: u32)
    requires
        s.len() > 0,
    ensures
        (exists|j: int|
            0 <= j < s.drop_first().len() && dedicated_family(
                #[trigger] s.drop_first()[j].1,
                desired,
                undesired,
            )) <==> exists|j: int|
            1 <= j < s.len() && dedicated_family(#[trigger] s[j].1, desired, undesired),
        (exists|j: int|
            0 <= j < s.drop_first().len() && separate_family(
                #[trigger] s.drop_first()[j].1,
                desired,
            )) <==> exists|j: int| 1 <= j < s.len() && separate_family(#[trigger] s[j].1, desired),
{
    let t = s.drop_first();
    assert forall|j: int| 0 <= j < t.len() implies t[j] == s[j + 1] by {}
    if exists|j: int| 0 <= j < t.len() && dedicated_family(#[trigger] t[j].1, desired, undesired) {
        let j = choose|j: int|
            0 <= j < t.len() && dedicated_family(#[trigger] t[j].1, desired, undesired);
        assert(dedicated_family(s[j + 1].1, desired, undesired));
    }
    if exists|j: int| 1 <= j < s.len() && dedicated_family(#[trigger] s[j].1, desired, undesired) {
        let j = choose|j: int|
            1 <= j < s.len() && dedicated_family(#[trigger] s[j].1, desired, undesired);
        assert(dedicated_family(t[j - 1].1, desired, undesired));
    }
    if exists|j: int| 0 <= j < t.len() && separate_family(#[trigger] t[j].1, desired) {
        let j = choose|j: int| 0 <= j < t.len() && separate_family(#[trigger] t[j].1, desired);
        assert(separate_family(s[j + 1].1, desired));
    }
    if exists|j: int| 1 <= j < s.len() && separate_family(#[trigger] s[j].1, desired) {
        let j = choose|j: int| 1 <= j < s.len() && separate_family(#[trigger] s[j].1, desired);
        assert(separate_family(t[j - 1].1, desired));
    }
}

/// What the separate-queue selection means, for any accumulated fallback:
/// the first dedicated family when one exists; else the last family that is
/// merely separate; else whatever was accumulated.
proof fn lemma_separate_match_characterization_acc(
    s: Seq<(usize, u32)>,
    desired: u32,
    undesired: u32,
    acc: Option<usize>,
)
    ensures
        (exists|j: int| 0 <= j < s.len() && dedicated_family(#[trigger] s[j].1, desired, undesired))
            ==> exists|j: int|
            {
                &&& 0 <= j < s.len()
                &&& dedicated_family(#[trigger] s[j].1, desired, undesired)
                &&& separate_match(s, desired, undesired, acc) == Some(s[j].0)
                &&& forall|k: int|
                    0 <= k < j ==> !dedicated_family(#[trigger] s[k].1, desired, undesired)
            },
        (!(exists|j: int|
            0 <= j < s.len() && dedicated_family(#[trigger] s[j].1, desired, undesired)) && (
        exists|j: int| 0 <= j < s.len() && separate_family(#[trigger] s[j].1, desired)))
            ==> exists|j: int|
            {
                &&& 0 <= j < s.len()
                &&& separate_family(#[trigger] s[j].1, desired)
                &&& separate_match(s, desired, undesired, acc) == Some(s[j].0)
                &&& forall|k: int| j < k < s.len() ==> !separate_family(#[trigger] s[k].1, desired)
            },
        (forall|j: int| 0 <= j < s.len() ==> !separate_family(#[trigger] s[j].1, desired))
            ==> separate_match(s, desired, undesired, acc) == acc,
    decreases s.len(),
{
    if s.len() == 0 {
    } else {
        let t = s.drop_first();
        assert forall|j: int| 0 <= j < t.len() implies t[j] == s[j + 1] by {}
        lemma_tail_family_bridge(s, desired, undesired);
        if dedicated_family(s[0].1, desired, undesired) {
            assert(separate_match(s, desired, undesired, acc) == Some(s[0].0));
        } else if separate_family(s[0].1, desired) {
            lemma_separate_match_characterization_acc(t, desired, undesired, Some(s[0].0));
            lemma_separate_lift(s, desired, undesired, Some(s[0].0));
            if !(exists|j: int|
                0 <= j < s.len() && dedicated_family(#[trigger] s[j].1, desired, undesired)) && !(
            exists|j: int| 0 <= j < t.len() && separate_family(#[trigger] t[j].1, desired)) {
                // The head is the only separate family: it is the last one.
                assert forall|j: int| 0 <= j < t.len() implies !separate_family(
                    #[trigger] t[j].1,
                    desired,
                ) by {}
                assert(separate_match(t, desired, undesired, Some(s[0].0)) == Some(s[0].0));
                assert forall|k: int| 0 < k < s.len() implies !separate_family(
                    #[trigger] s[k].1,
                    desired,
                ) by {
                    assert(s[k] == t[k - 1]);
                }
                assert(separate_family(s[0].1, desired) && separate_match(
                    s,
                    desired,
                    undesired,
                    acc,
                ) == Some(s[0].0));
            }
        } else {
            lemma_separate_match_characterization_acc(t, desired, undesired, acc);
            lemma_separate_lift(s, desired, undesired, acc);
            if forall|j: int| 0 <= j < s.len() ==> !separate_family(#[trigger] s[j].1, desired) {
                assert forall|j: int| 0 <= j < t.len() implies !separate_family(
                    #[trigger] t[j].1,
                    desired,
                ) by {
                    assert(t[j] == s[j + 1]);
                }
            }
        }
    }
}

/// Lift the tail's characterization witnesses over a non-dedicated head.
proof fn lemma_separate_lift(s: Seq<(usize, u32)>, desired: u32, undesired: u32, acc2: Option<
    usize,
>)
    requires
        s.len() > 0,
        !dedicated_family(s[0].1, desired, undesired),
        separate_match(s, desired, undesired, acc2) == if separate_family(s[0].1, desired) {
            separate_match(s.drop_first(), desired, undesired, Some(s[0].0))
        } else {
            separate_match(s.drop_first(), desired, undesired, acc2)
        },
    ensures
        (exists|j: int|
            {
                &&& 0 <= j < s.drop_first().len()
                &&& dedicated_family(#[trigger] s.drop_first()[j].1, desired, undesired)
                &&& separate_match(s, desired, undesired, acc2) == Some(s.drop_first()[j].0)
                &&& forall|k: int|
                    0 <= k < j ==> !dedicated_family(
                        #[trigger] s.drop_first()[k].1,
                        desired,
                        undesired,
                    )
            }) ==> exists|j: int|
            {
                &&& 0 <= j < s.len()
                &&& dedicated_family(#[trigger] s[j].1, desired, undesired)
                &&& separate_match(s, desired, undesired, acc2) == Some(s[j].0)
                &&& forall|k: int|
                    0 <= k < j ==> !dedicated_family(#[trigger] s[k].1, desired, undesired)
            },
        (exists|j: int|
            {
                &&& 0 <= j < s.drop_first().len()
                &&& separate_family(#[trigger] s.drop_first()[j].1, desired)
                &&& separate_match(s, desired, undesired, acc2) == Some(s.drop_first()[j].0)
                &&& forall|k: int|
                    j < k < s.drop_first().len() ==> !separate_family(
                        #[trigger] s.drop_first()[k].1,
                        desired,
                    )
            }) ==> exists|j: int|
            {
                &&& 0 <= j < s.len()
                &&& separate_family(#[trigger] s[j].1, desired)
                &&& separate_match(s, desired, undesired, acc2) == Some(s[j].0)
                &&& forall|k: int| j < k < s.len() ==> !separate_family(#[trigger] s[k].1, desired)
            },
{
    let t = s.drop_first();
    assert forall|j: int| 0 <= j < t.len() implies t[j] == s[j + 1] by {}
    if exists|j: int|
        {
            &&& 0 <= j < t.len()
            &&& dedicated_family(#[trigger] t[j].1, desired, undesired)
            &&& separate_match(s, desired, undesired, acc2) == Some(t[j].0)
            &&& forall|k: int|
                0 <= k < j ==> !dedicated_family(#[trigger] t[k].1, desired, undesired)
        } {
        let j = choose|j: int|
            {
                &&& 0 <= j < t.len()
                &&& dedicated_family(#[trigger] t[j].1, desired, undesired)
                &&& separate_match(s, desired, undesired, acc2) == Some(t[j].0)
                &&& forall|k: int|
                    0 <= k < j ==> !dedicated_family(#[trigger] t[k].1, desired, undesired)
            };
        assert(dedicated_family(s[j + 1].1, desired, undesired));
        assert forall|k: int| 0 <= k < j + 1 implies !dedicated_family(
            #[trigger] s[k].1,
            desired,
            undesired,
        ) by {
            if k > 0 {
                assert(s[k] == t[k - 1]);
            }
        }
    }
    if exists|j: int|
        {
            &&& 0 <= j < t.len()
            &&& separate_family(#[trigger] t[j].1, desired)
            &&& separate_match(s, desired, undesired, acc2) == Some(t[j].0)
            &&& forall|k: int| j < k < t.len() ==> !separate_family(#[trigger] t[k].1, desired)
        } {
        let j = choose|j: int|
            {
                &&& 0 <= j < t.len()
                &&& separate_family(#[trigger] t[j].1, desired)
                &&& separate_match(s, desired, undesired, acc2) == Some(t[j].0)
                &&& forall|k: int| j < k < t.len() ==> !separate_family(#[trigger] t[k].1, desired)
            };
        assert(separate_family(s[j + 1].1, desired));
        assert forall|k: int| j + 1 < k < s.len() implies !separate_family(
            #[trigger] s[k].1,
            desired,
        ) by {
            assert(s[k] == t[k - 1]);
        }
    }
}

/// What the separate-queue selection means: the first family that is
/// dedicated (desired capabilities, no graphics, none of the undesired
/// capabilities) when one exists; else the last family that is merely
/// separate (desired capabilities, no graphics); else none.
pub proof fn lemma_separate_match_characterization(
    s: Seq<(usize, u32)>,
    desired: u32,
    undesired: u32,
)
    ensures
        (exists|j: int| 0 <= j < s.len() && dedicated_family(#[trigger] s[j].1, desired, undesired))
            ==> exists|j: int|
            {
                &&& 0 <= j < s.len()
                &&& dedicated_family(#[trigger] s[j].1, desired, undesired)
                &&& separate_match(s, desired, undesired, None) == Some(s[j].0)
                &&& forall|k: int|
                    0 <= k < j ==> !dedicated_family(#[trigger] s[k].1, desired, undesired)
            },
        (!(exists|j: int|
            0 <= j < s.len() && dedicated_family(#[trigger] s[j].1, desired, undesired)) && (
        exists|j: int| 0 <= j < s.len() && separate_family(#[trigger] s[j].1, desired)))
            ==> exists|j: int|
            {
                &&& 0 <= j < s.len()
                &&& separate_family(#[trigger] s[j].1, desired)
                &&& separate_match(s, desired, undesired, None) == Some(s[j].0)
                &&& forall|k: int| j < k < s.len() ==> !separate_family(#[trigger] s[k].1, desired)
            },
        (forall|j: int| 0 <= j < s.len() ==> !separate_family(#[trigger] s[j].1, desired))
            ==> separate_match(s, desired, undesired, None) is None,
{
    lemma_separate_match_characterization_acc(s, desired, undesired, None);
}

/// Coarse adapter classes, ranked by `type_score`.
#[derive(Clone, Copy, PartialEq, Eq, Structural, Debug)]
pub enum AdapterType {
    DiscreteGpu,
    IntegratedGpu,
    VirtualGpu,
    Cpu,
    Other,
}

/// How an adapter type ranks when choosing a physical adapter: discrete over
/// integrated over virtual over software, anything unknown last.
pub fn type_score(t: AdapterType) -> (r: usize)
    ensures
        r == match t {
            AdapterType::DiscreteGpu => 20int,
            AdapterType::IntegratedGpu => 10int,
            AdapterType::VirtualGpu => 5int,
            AdapterType::Cpu => 1int,
            AdapterType::Other => 0int,
        },
{
    match t {
        AdapterType::DiscreteGpu => 20,
        AdapterType::IntegratedGpu => 10,
        AdapterType::VirtualGpu => 5,
        AdapterType::Cpu => 1,
        AdapterType::Other => 0,
    }
}

} // verus!
