use etcherus::flash_service::{FlashRun, FlashService, FLASH_STEPS};

#[test]
fn a_run_takes_every_step_once_in_order() {
    let _ = FlashService::new();
    let mut run = FlashRun::new();
    let mut seen = Vec::new();
    while let Some(step) = run.next_step() {
        seen.push(step);
    }
    assert_eq!(seen, (0..FLASH_STEPS).collect::<Vec<_>>());
    assert!(run.is_finished());
    assert_eq!(run.next_step(), None);
}
