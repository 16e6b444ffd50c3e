use atlas::path_guard::{
    downgrade, from_token, mark_attempt, pick, resolve_after_crash, token, unproven, TrustCounter,
};
use atlas::render_path::RenderPath;

#[test]
fn tokens_round_trip() {
    for p in [RenderPath::GpuDriven, RenderPath::Standard, RenderPath::M0Instanced] {
        assert_eq!(from_token(token(p)), Some(p), "{p:?} must survive a write/read cycle");
    }
}

#[test]
fn downgrade_terminates() {
    let mut p = Some(RenderPath::GpuDriven);
    let mut steps = 0;
    while let Some(cur) = p {
        p = downgrade(cur);
        steps += 1;
        assert!(steps <= 2, "downgrade chain does not terminate");
    }
    assert_eq!(steps, 2, "gpu -> std -> done");
}

#[test]
fn gpu_falls_back_to_standard_not_m0() {
    assert_eq!(downgrade(RenderPath::GpuDriven), Some(RenderPath::Standard));
}

#[test]
fn unknown_marker_contents_are_ignored() {
    assert_eq!(from_token(""), None);
    assert_eq!(from_token("vulkan"), None);
}

#[test]
fn a_crash_on_the_fast_path_steps_down_one_rung() {
    assert_eq!(pick(RenderPath::GpuDriven, &vec![RenderPath::GpuDriven]), RenderPath::Standard);
}

#[test]
fn repeated_crashes_stay_on_standard_never_the_white_map() {
    let bad = vec![RenderPath::GpuDriven, RenderPath::Standard];
    assert_eq!(pick(RenderPath::GpuDriven, &bad), RenderPath::Standard);
}

#[test]
fn a_stale_entry_for_another_path_does_not_demote_a_working_one() {
    assert_eq!(pick(RenderPath::GpuDriven, &vec![RenderPath::Standard]), RenderPath::GpuDriven);
}

#[test]
fn the_probe_ceiling_is_never_exceeded() {
    assert_eq!(pick(RenderPath::M0Instanced, &vec![RenderPath::GpuDriven]), RenderPath::M0Instanced);
}

#[test]
fn everything_failing_still_yields_a_path() {
    let all = vec![RenderPath::GpuDriven, RenderPath::Standard, RenderPath::M0Instanced];
    assert_eq!(pick(RenderPath::GpuDriven, &all), RenderPath::Standard);
}

#[test]
fn a_marker_file_lists_each_path_once() {
    assert_eq!(unproven(None), vec![]);
    assert_eq!(
        unproven(Some("gpu\nnonsense\n std \n\n")),
        vec![RenderPath::GpuDriven, RenderPath::Standard]
    );
    let once = mark_attempt(None, RenderPath::GpuDriven);
    assert_eq!(once, "gpu");
    assert_eq!(mark_attempt(Some(&once), RenderPath::GpuDriven), "gpu");
    let both = mark_attempt(Some(&once), RenderPath::Standard);
    assert_eq!(both, "gpu\nstd");
    assert_eq!(unproven(Some(&both)), vec![RenderPath::GpuDriven, RenderPath::Standard]);
}

#[test]
fn an_explicit_choice_is_never_overruled() {
    assert_eq!(
        resolve_after_crash(RenderPath::GpuDriven, true, Some("gpu")),
        RenderPath::GpuDriven
    );
    assert_eq!(
        resolve_after_crash(RenderPath::GpuDriven, false, Some("gpu")),
        RenderPath::Standard
    );
    assert_eq!(resolve_after_crash(RenderPath::GpuDriven, false, None), RenderPath::GpuDriven);
}

#[test]
fn a_path_is_trusted_after_its_frames() {
    let mut c = TrustCounter::new();
    let mut n = 0u32;
    loop {
        n += 1;
        if c.trust_current_path(false, true, false) {
            break;
        }
        assert!(n < 1000);
    }
    assert_eq!(n, atlas::path_guard::FRAMES_TO_TRUST);
    assert!(!c.trust_current_path(false, true, false), "cleared once");
    let mut idle = TrustCounter::new();
    for _ in 0..1000 {
        assert!(!idle.trust_current_path(false, false, false));
    }
    assert!(idle.trust_current_path(true, false, false), "a clean exit clears it");
}
