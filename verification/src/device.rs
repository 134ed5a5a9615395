//! The rules by which a physical device is judged and chosen from what the
//! driver reports about it.

use std::collections::HashSet;
use vstd::prelude::*;

verus! {

/// What is known of one queue family of a device.
#[derive(Debug, Clone, Copy, PartialEq, Eq, Structural)]
pub struct QueueFamily {
    /// The family takes graphics commands.
    pub graphics: bool,
    /// The family can present to the surface.
    pub present: bool,
}

/// The queue families that a renderer uses.
#[derive(Debug, Clone, Copy, PartialEq, Eq, Structural)]
pub struct QueueFamilyIndices {
    pub graphics_family: u32,
    pub present_family: u32,
}

/// `i` is the position of the first family that takes graphics commands.
pub open spec fn is_first_graphics(families: Seq<QueueFamily>, i: int) -> bool {
    &&& 0 <= i < families.len()
    &&& families[i].graphics
    &&& forall|j: int| 0 <= j < i ==> !(#[trigger] families[j]).graphics
}

/// `i` is the position of the first family that can present.
pub open spec fn is_first_present(families: Seq<QueueFamily>, i: int) -> bool {
    &&& 0 <= i < families.len()
    &&& families[i].present
    &&& forall|j: int| 0 <= j < i ==> !(#[trigger] families[j]).present
}

/// Finds the first family that takes graphics commands and the first that
/// can present. There is a result if and only if both exist.
pub fn find_queue_families(families: &[QueueFamily]) -> (found: Option<QueueFamilyIndices>)
    requires
        families@.len() <= u32::MAX,
    ensures
        match found {
            Some(indices) => {
                &&& is_first_graphics(families@, indices.graphics_family as int)
                &&& is_first_present(families@, indices.present_family as int)
            },
            None => {
                ||| forall|j: int| 0 <= j < families@.len() ==> !(#[trigger] families@[j]).graphics
                ||| forall|j: int| 0 <= j < families@.len() ==> !(#[trigger] families@[j]).present
            },
        },
{
    let mut graphics_family_index: Option<u32> = None;
    let mut present_family_index: Option<u32> = None;
    let mut i: usize = 0;
    while i < families.len() && !(graphics_family_index.is_some() && present_family_index.is_some())
        invariant
            i <= families@.len(),
            families@.len() <= u32::MAX,
            match graphics_family_index {
                Some(g) => is_first_graphics(families@, g as int),
                None => forall|j: int| 0 <= j < i ==> !(#[trigger] families@[j]).graphics,
            },
            match present_family_index {
                Some(p) => is_first_present(families@, p as int),
                None => forall|j: int| 0 <= j < i ==> !(#[trigger] families@[j]).present,
            },
        decreases families@.len() - i,
    {
        let queue_family = families[i];
        if graphics_family_index.is_none() && queue_family.graphics {
            graphics_family_index = Some(i as u32);
        }
        if present_family_index.is_none() && queue_family.present {
            present_family_index = Some(i as u32);
        }
        i = i + 1;
    }
    match (graphics_family_index, present_family_index) {
        (Some(graphics), Some(present)) => Some(
            QueueFamilyIndices { graphics_family: graphics, present_family: present },
        ),
        _ => None,
    }
}

/// The families for which a device creates queues: the graphics family and
/// the present family, once where they are the same.
pub open spec fn unique_families(indices: QueueFamilyIndices) -> Set<u32> {
    Set::<u32>::empty().insert(indices.graphics_family).insert(indices.present_family)
}

/// Computes [`unique_families`].
pub fn unique_queue_families(indices: QueueFamilyIndices) -> (families: HashSet<u32>)
    ensures
        families@ == unique_families(indices),
{
    broadcast use vstd::std_specs::hash::group_hash_axioms;

    let mut families: HashSet<u32> = HashSet::new();
    families.insert(indices.graphics_family);
    families.insert(indices.present_family);
    families
}

/// Tells whether two names are the same bytes.
pub fn same_name(a: &[u8], b: &[u8]) -> (same: bool)
    ensures
        same == (a@ == b@),
{
    if a.len() != b.len() {
        return false;
    }
    let mut i: usize = 0;
    while i < a.len()
        invariant
            a@.len() == b@.len(),
            i <= a@.len(),
            forall|j: int| 0 <= j < i ==> a@[j] == b@[j],
        decreases a@.len() - i,
    {
        if a[i] != b[i] {
            return false;
        }
        i = i + 1;
    }
    assert(a@ =~= b@);
    true
}

/// `name` is among the `available` names.
pub open spec fn is_available(available: Seq<Vec<u8>>, name: Seq<u8>) -> bool {
    exists|j: int| 0 <= j < available.len() && (#[trigger] available[j])@ == name
}

/// Tells whether `name` is among the `available` names.
pub fn name_available(available: &Vec<Vec<u8>>, name: &[u8]) -> (found: bool)
    ensures
        found == is_available(available@, name@),
{
    let mut j: usize = 0;
    while j < available.len()
        invariant
            j <= available@.len(),
            forall|k: int| 0 <= k < j ==> (#[trigger] available@[k])@ != name@,
        decreases available@.len() - j,
    {
        if same_name(available[j].as_slice(), name) {
            assert(available@[j as int]@ == name@);
            return true;
        }
        j = j + 1;
    }
    false
}

/// Finds the first of the `required` names that is not among the
/// `available` ones. There is none if and only if all are available.
pub fn first_unsupported(required: &Vec<Vec<u8>>, available: &Vec<Vec<u8>>) -> (missing: Option<
    usize,
>)
    ensures
        match missing {
            Some(i) => {
                &&& i < required@.len()
                &&& !is_available(available@, required@[i as int]@)
                &&& forall|k: int|
                    0 <= k < i ==> is_available(available@, (#[trigger] required@[k])@)
            },
            None => forall|k: int|
                0 <= k < required@.len() ==> is_available(available@, (#[trigger] required@[k])@),
        },
{
    let mut i: usize = 0;
    while i < required.len()
        invariant
            i <= required@.len(),
            forall|k: int| 0 <= k < i ==> is_available(available@, (#[trigger] required@[k])@),
        decreases required@.len() - i,
    {
        if !name_available(available, required[i].as_slice()) {
            return Some(i);
        }
        i = i + 1;
    }
    None
}

/// The verdict on a device: its queue families, if it has both kinds, all
/// required extensions, and a surface with some format and some present
/// mode.
pub open spec fn suitable(
    queue_families: Option<QueueFamilyIndices>,
    extensions_supported: bool,
    format_count: nat,
    present_mode_count: nat,
) -> Option<QueueFamilyIndices> {
    if extensions_supported && format_count > 0 && present_mode_count > 0 {
        queue_families
    } else {
        None
    }
}

/// Computes [`suitable`].
pub fn is_device_suitable(
    queue_families: Option<QueueFamilyIndices>,
    extensions_supported: bool,
    format_count: usize,
    present_mode_count: usize,
) -> (verdict: Option<QueueFamilyIndices>)
    ensures
        verdict == suitable(
            queue_families,
            extensions_supported,
            format_count as nat,
            present_mode_count as nat,
        ),
{
    if !extensions_supported {
        return None;
    }
    let swapchain_support = format_count != 0 && present_mode_count != 0;
    if !swapchain_support {
        return None;
    }
    queue_families
}

/// Picks the first device that was found suitable, with its queue
/// families. There is a result if and only if some device is suitable.
pub fn select_physical_device(verdicts: &[Option<QueueFamilyIndices>]) -> (selected: Option<
    (usize, QueueFamilyIndices),
>)
    ensures
        match selected {
            Some((i, indices)) => {
                &&& i < verdicts@.len()
                &&& verdicts@[i as int] == Some(indices)
                &&& forall|j: int| 0 <= j < i ==> (#[trigger] verdicts@[j]) is None
            },
            None => forall|j: int| 0 <= j < verdicts@.len() ==> (#[trigger] verdicts@[j]) is None,
        },
{
    let mut i: usize = 0;
    while i < verdicts.len()
        invariant
            i <= verdicts@.len(),
            forall|j: int| 0 <= j < i ==> (#[trigger] verdicts@[j]) is None,
        decreases verdicts@.len() - i,
    {
        match verdicts[i] {
            Some(indices) => {
                return Some((i, indices));
            },
            None => {},
        }
        i = i + 1;
    }
    None
}

} // verus!
