use gpu_core::GpuError;
use gpu_core::physical_device::{
    get_first_queue_index, get_separate_queue_index, select_queue_families, type_score,
    AdapterType, QUEUE_FLAG_COMPUTE, QUEUE_FLAG_GRAPHICS, QUEUE_FLAG_TRANSFER,
};

const G: u32 = QUEUE_FLAG_GRAPHICS;
const C: u32 = QUEUE_FLAG_COMPUTE;
const T: u32 = QUEUE_FLAG_TRANSFER;

#[test]
fn dedicated_families_beat_the_combined_family() {
    // Family 0 carries graphics, compute and transfer; family 1 only
    // compute; family 2 only transfer. Compute must pick 1 and transfer 2,
    // preferring the dedicated families; graphics picks 0.
    let fams = vec![(0usize, G | C | T), (1usize, C), (2usize, T)];
    assert_eq!(get_first_queue_index(&fams, G), Some(0));
    assert_eq!(get_separate_queue_index(&fams, C, T), Some(1));
    assert_eq!(get_separate_queue_index(&fams, T, C), Some(2));
    let picks = select_queue_families(&fams).unwrap();
    assert_eq!(picks, [0, 2, 1]); // graphics, transfer, compute
}

#[test]
fn first_queue_index_takes_the_first_superset() {
    let fams = vec![(0usize, C), (1usize, G | C), (2usize, G)];
    assert_eq!(get_first_queue_index(&fams, G), Some(1));
    assert_eq!(get_first_queue_index(&fams, C), Some(0));
    assert_eq!(get_first_queue_index(&fams, G | C), Some(1));
    assert_eq!(get_first_queue_index(&fams, T), None);
}

#[test]
fn separate_queue_index_falls_back_to_the_last_non_dedicated_family() {
    // No compute family lacks transfer, so the pick falls back to the last
    // compute-capable non-graphics family.
    let fams = vec![(0usize, G | C | T), (1usize, C | T), (2usize, C | T)];
    assert_eq!(get_separate_queue_index(&fams, C, T), Some(2));
}

#[test]
fn separate_queue_index_never_picks_a_graphics_family() {
    let fams = vec![(0usize, G | C | T)];
    assert_eq!(get_separate_queue_index(&fams, C, T), None);
    assert_eq!(get_separate_queue_index(&fams, T, C), None);
}

#[test]
fn a_dedicated_family_wins_even_after_a_fallback_was_seen() {
    let fams = vec![(0usize, C | T), (1usize, C)];
    assert_eq!(get_separate_queue_index(&fams, C, T), Some(1));
}

#[test]
fn missing_capability_fails_device_selection() {
    // No transfer-capable non-graphics family exists.
    let fams = vec![(0usize, G | T), (1usize, C)];
    assert_eq!(select_queue_families(&fams), Err(GpuError::CapabilityAbsence));
    // An empty table fails too.
    let none: Vec<(usize, u32)> = Vec::new();
    assert_eq!(select_queue_families(&none), Err(GpuError::CapabilityAbsence));
}

#[test]
fn adapter_types_rank_discrete_first() {
    assert_eq!(type_score(AdapterType::DiscreteGpu), 20);
    assert_eq!(type_score(AdapterType::IntegratedGpu), 10);
    assert_eq!(type_score(AdapterType::VirtualGpu), 5);
    assert_eq!(type_score(AdapterType::Cpu), 1);
    assert_eq!(type_score(AdapterType::Other), 0);
}
