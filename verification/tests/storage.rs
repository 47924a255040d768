use image_ingest::naming::{image_file_name, Timestamp};
use image_ingest::storage::{
    first_stage, next_stage, plan_ingestion, plan_storage, InvalidPath, PlanError, Stage,
    StoragePlan,
};
use image_ingest::upload::{begin_upload, finish_upload, Rejection};
use std::collections::{BTreeMap, BTreeSet};

fn walk(
    plan: &StoragePlan,
    payload: &[u8],
    directories: &mut BTreeSet<String>,
    files: &mut BTreeMap<String, Vec<u8>>,
) -> Stage {
    let mut stage = first_stage(plan);
    loop {
        let succeeded = match stage {
            Stage::EnsureDirectory => {
                directories.insert(plan.directory.clone().unwrap());
                true
            }
            Stage::WriteImage => {
                files.insert(plan.image_path.clone(), payload.to_vec());
                true
            }
            Stage::CopyToLatest => match files.get(&plan.image_path).cloned() {
                Some(bytes) => {
                    files.insert(plan.latest_path.clone(), bytes);
                    true
                }
                None => false,
            },
            Stage::Done | Stage::Failed => return stage,
        };
        stage = next_stage(stage, succeeded);
    }
}

#[test]
fn device_layout_puts_both_files_in_the_device_directory() {
    let plan = plan_storage(Some("cam1"), "image-20240102-030405.jpg").unwrap();
    assert_eq!(plan.directory, Some(String::from("cam1")));
    assert_eq!(plan.image_path, "cam1/image-20240102-030405.jpg");
    assert_eq!(plan.latest_path, "cam1/aaa-latest.jpg");
}

#[test]
fn flat_layout_has_no_directory() {
    let plan = plan_storage(None, "image-20240102-030405.jpg").unwrap();
    assert_eq!(plan.directory, None);
    assert_eq!(plan.image_path, "image-20240102-030405.jpg");
    assert_eq!(plan.latest_path, "aaa-latest.jpg");
}

#[test]
fn unsafe_device_is_refused() {
    assert_eq!(plan_storage(Some("../etc"), "image.jpg"), Err(InvalidPath));
    assert_eq!(plan_storage(Some(""), "image.jpg"), Err(InvalidPath));
    assert_eq!(plan_storage(Some("/etc"), "image.jpg"), Err(InvalidPath));
    assert_eq!(plan_storage(Some("a/b"), "image.jpg"), Err(InvalidPath));
    assert_eq!(plan_storage(Some(".."), "image.jpg"), Err(InvalidPath));
}

#[test]
fn unsafe_file_name_is_refused() {
    assert_eq!(plan_storage(None, "../image.jpg"), Err(InvalidPath));
    assert_eq!(plan_storage(None, ""), Err(InvalidPath));
    assert_eq!(plan_storage(Some("cam1"), "x/y.jpg"), Err(InvalidPath));
}

#[test]
fn stages_run_in_order() {
    let with_device = plan_storage(Some("cam1"), "image.jpg").unwrap();
    assert_eq!(first_stage(&with_device), Stage::EnsureDirectory);
    let flat = plan_storage(None, "image.jpg").unwrap();
    assert_eq!(first_stage(&flat), Stage::WriteImage);
    assert_eq!(next_stage(Stage::EnsureDirectory, true), Stage::WriteImage);
    assert_eq!(next_stage(Stage::WriteImage, true), Stage::CopyToLatest);
    assert_eq!(next_stage(Stage::CopyToLatest, true), Stage::Done);
}

#[test]
fn a_failed_step_ends_the_ingestion() {
    assert_eq!(next_stage(Stage::EnsureDirectory, false), Stage::Failed);
    assert_eq!(next_stage(Stage::WriteImage, false), Stage::Failed);
    assert_eq!(next_stage(Stage::CopyToLatest, false), Stage::Failed);
}

#[test]
fn ends_are_terminal() {
    assert_eq!(next_stage(Stage::Done, true), Stage::Done);
    assert_eq!(next_stage(Stage::Done, false), Stage::Done);
    assert_eq!(next_stage(Stage::Failed, true), Stage::Failed);
    assert_eq!(next_stage(Stage::Failed, false), Stage::Failed);
}

#[test]
fn upload_of_ten_kilobytes_for_cam1() {
    let payload: Vec<u8> = (0..10240u32).map(|i| (i % 251) as u8).collect();
    let at = Timestamp { year: 2024, month: 5, day: 6, hour: 7, minute: 8, second: 9 };
    let name = image_file_name(&at).unwrap();
    let plan = begin_upload(Some("cam1"), &name).unwrap();
    let mut directories = BTreeSet::new();
    let mut files = BTreeMap::new();
    let end = walk(&plan, &payload, &mut directories, &mut files);
    assert_eq!(finish_upload(if end == Stage::Done { Ok(()) } else { Err(String::new()) }), Ok(()));
    assert!(directories.contains("cam1"));
    assert_eq!(files.len(), 2);
    assert_eq!(files["cam1/image-20240506-070809.jpg"].len(), 10240);
    assert_eq!(files["cam1/aaa-latest.jpg"].len(), 10240);
    assert_eq!(files["cam1/image-20240506-070809.jpg"], payload);
    assert_eq!(files["cam1/aaa-latest.jpg"], payload);
}

#[test]
fn upload_to_a_traversing_path_is_answered_with_invalid_path() {
    let mut files: BTreeMap<String, Vec<u8>> = BTreeMap::new();
    let answer = begin_upload(Some("../etc"), "image-20240506-070809.jpg");
    if let Ok(plan) = &answer {
        files.insert(plan.image_path.clone(), Vec::new());
    }
    assert_eq!(answer, Err(Rejection { status: 400, body: String::from("Invalid path") }));
    assert!(files.is_empty());
}

#[test]
fn upload_with_a_traversing_file_name_is_answered_with_invalid_path() {
    assert_eq!(
        begin_upload(None, "../image.jpg"),
        Err(Rejection { status: 400, body: String::from("Invalid path") })
    );
}

#[test]
fn storage_failure_is_answered_with_its_description() {
    assert_eq!(
        finish_upload(Err(String::from("No space left on device"))),
        Err(Rejection { status: 500, body: String::from("No space left on device") })
    );
    assert_eq!(finish_upload(Ok(())), Ok(()));
}

#[test]
fn ensuring_a_directory_twice_keeps_the_files() {
    let plan = plan_storage(Some("cam1"), "image-20240506-070809.jpg").unwrap();
    let mut directories = BTreeSet::new();
    let mut files = BTreeMap::new();
    assert_eq!(walk(&plan, b"first", &mut directories, &mut files), Stage::Done);
    let kept = files.clone();
    assert_eq!(first_stage(&plan), Stage::EnsureDirectory);
    directories.insert(plan.directory.clone().unwrap());
    directories.insert(plan.directory.clone().unwrap());
    assert_eq!(directories.len(), 1);
    assert_eq!(files, kept);
}

#[test]
fn two_uploads_for_one_device_leave_the_later_one_as_latest() {
    let first = plan_storage(Some("cam1"), "image-20240506-070809.jpg").unwrap();
    let second = plan_storage(Some("cam1"), "image-20240506-070810.jpg").unwrap();
    let mut directories = BTreeSet::new();
    let mut files = BTreeMap::new();
    assert_eq!(walk(&first, b"one", &mut directories, &mut files), Stage::Done);
    assert_eq!(walk(&second, b"two!", &mut directories, &mut files), Stage::Done);
    assert_eq!(files["cam1/image-20240506-070809.jpg"], b"one".to_vec());
    assert_eq!(files["cam1/image-20240506-070810.jpg"], b"two!".to_vec());
    assert_eq!(files["cam1/aaa-latest.jpg"], b"two!".to_vec());
}

#[test]
fn empty_payload_gives_two_empty_files() {
    let plan = plan_storage(None, "image-20240506-070809.jpg").unwrap();
    let mut directories = BTreeSet::new();
    let mut files = BTreeMap::new();
    assert_eq!(walk(&plan, b"", &mut directories, &mut files), Stage::Done);
    assert!(directories.is_empty());
    assert_eq!(files["image-20240506-070809.jpg"], Vec::<u8>::new());
    assert_eq!(files["aaa-latest.jpg"], Vec::<u8>::new());
}

#[test]
fn ingestion_is_planned_from_device_and_time() {
    let at = Timestamp { year: 2024, month: 5, day: 6, hour: 7, minute: 8, second: 9 };
    let plan = plan_ingestion(Some("cam7"), &at).unwrap();
    assert_eq!(plan.directory, Some(String::from("cam7")));
    assert_eq!(plan.image_path, "cam7/image-20240506-070809.jpg");
    assert_eq!(plan.latest_path, "cam7/aaa-latest.jpg");
    let flat = plan_ingestion(None, &at).unwrap();
    assert_eq!(flat.directory, None);
    assert_eq!(flat.image_path, "image-20240506-070809.jpg");
    assert_eq!(flat.latest_path, "aaa-latest.jpg");
}

#[test]
fn ingestion_plan_names_its_error() {
    let at = Timestamp { year: 2024, month: 5, day: 6, hour: 7, minute: 8, second: 9 };
    let never = Timestamp { year: 2024, month: 2, day: 30, hour: 0, minute: 0, second: 0 };
    assert_eq!(plan_ingestion(Some("../etc"), &at), Err(PlanError::InvalidPath));
    assert_eq!(plan_ingestion(Some("cam7"), &never), Err(PlanError::NoSuchTime));
    assert_eq!(plan_ingestion(Some("../etc"), &never), Err(PlanError::NoSuchTime));
    assert_eq!(plan_ingestion(None, &never), Err(PlanError::NoSuchTime));
}

#[test]
fn overlapping_uploads_leave_whole_files() {
    let first = plan_storage(Some("cam1"), "image-20240506-070809.jpg").unwrap();
    let second = plan_storage(Some("cam1"), "image-20240506-070810.jpg").unwrap();
    let mut files: BTreeMap<String, Vec<u8>> = BTreeMap::new();
    let mut first_stage_now = next_stage(first_stage(&first), true);
    let mut second_stage_now = next_stage(first_stage(&second), true);
    assert_eq!(first_stage_now, Stage::WriteImage);
    assert_eq!(second_stage_now, Stage::WriteImage);
    files.insert(first.image_path.clone(), b"one".to_vec());
    first_stage_now = next_stage(first_stage_now, true);
    files.insert(second.image_path.clone(), b"two!".to_vec());
    second_stage_now = next_stage(second_stage_now, true);
    assert_eq!(second_stage_now, Stage::CopyToLatest);
    files.insert(second.latest_path.clone(), files[&second.image_path].clone());
    second_stage_now = next_stage(second_stage_now, true);
    assert_eq!(first_stage_now, Stage::CopyToLatest);
    files.insert(first.latest_path.clone(), files[&first.image_path].clone());
    first_stage_now = next_stage(first_stage_now, true);
    assert_eq!(first_stage_now, Stage::Done);
    assert_eq!(second_stage_now, Stage::Done);
    assert_eq!(files["cam1/image-20240506-070809.jpg"], b"one".to_vec());
    assert_eq!(files["cam1/image-20240506-070810.jpg"], b"two!".to_vec());
    assert_eq!(files["cam1/aaa-latest.jpg"], b"one".to_vec());
}
