//! The persistence operation, as far as it can be decided without touching
//! the disk: where an image and its latest copy go, in which order the
//! steps run, and what the files hold once every step has succeeded.

use crate::naming::{image_file_name, lemma_file_name_is_safe, Timestamp};
use crate::path::{
    is_parent_dir, is_single_normal_component, is_token, lemma_plain_token_is_accepted,
    lemma_segments_nonempty, lemma_segments_of_joined, lemma_single_normal_shape, path_is_valid,
    segments,
};
use vstd::prelude::*;
use vstd::string::*;

verus! {

/// A device identifier or a file name is not a single normal path component.
#[derive(Clone, Copy, Debug, PartialEq, Eq, Structural)]
pub struct InvalidPath;

/// Where one ingestion writes, relative to the uploads root.
#[derive(Clone, Debug, PartialEq, Eq)]
pub struct StoragePlan {
    /// The device's directory, to create if absent; none in the flat layout.
    pub directory: Option<String>,
    /// The stored image file.
    pub image_path: String,
    /// The latest pointer file.
    pub latest_path: String,
}

/// A storage plan as plain text.
pub struct PlanView {
    pub directory: Option<Seq<char>>,
    pub image_path: Seq<char>,
    pub latest_path: Seq<char>,
}

impl View for StoragePlan {
    type V = PlanView;

    open spec fn view(&self) -> PlanView {
        PlanView {
            directory: match self.directory {
                Some(d) => Some(d@),
                None => None,
            },
            image_path: self.image_path@,
            latest_path: self.latest_path@,
        }
    }
}

/// The text of an optional identifier.
pub open spec fn text_of(device_id: Option<&str>) -> Option<Seq<char>> {
    match device_id {
        Some(d) => Some(d@),
        None => None,
    }
}

/// The layout: `<device>/<file name>` and `<device>/aaa-latest.jpg` below
/// the uploads root, or the two names alone where there is no device.
pub open spec fn planned(device: Option<Seq<char>>, file_name: Seq<char>) -> PlanView {
    match device {
        Some(d) => PlanView {
            directory: Some(d),
            image_path: d + "/"@ + file_name,
            latest_path: d + "/"@ + "aaa-latest.jpg"@,
        },
        None => PlanView {
            directory: None,
            image_path: file_name,
            latest_path: "aaa-latest.jpg"@,
        },
    }
}

/// Both the file name and, where there is one, the device identifier are
/// single normal path components.
pub open spec fn is_safe_target(device: Option<Seq<char>>, file_name: Seq<char>) -> bool {
    &&& is_single_normal_component(file_name)
    &&& device matches Some(d) ==> is_single_normal_component(d)
}

/// Assembles the paths of one ingestion. Every caller-supplied segment is
/// checked here, before anything touches the disk.
pub fn plan_storage(device_id: Option<&str>, file_name: &str) -> (out: Result<
    StoragePlan,
    InvalidPath,
>)
    ensures
        out is Ok <==> is_safe_target(text_of(device_id), file_name@),
        out matches Ok(plan) ==> plan@ == planned(text_of(device_id), file_name@),
{
    if !path_is_valid(file_name) {
        return Err(InvalidPath);
    }
    match device_id {
        Some(device) => {
            if !path_is_valid(device) {
                return Err(InvalidPath);
            }
            let mut image_path = String::from_str(device);
            image_path.append("/");
            image_path.append(file_name);
            let mut latest_path = String::from_str(device);
            latest_path.append("/");
            latest_path.append("aaa-latest.jpg");
            Ok(StoragePlan { directory: Some(String::from_str(device)), image_path, latest_path })
        },
        None => Ok(
            StoragePlan {
                directory: None,
                image_path: String::from_str(file_name),
                latest_path: String::from_str("aaa-latest.jpg"),
            },
        ),
    }
}

/// Why no paths could be assembled for an ingestion.
#[derive(Clone, Copy, Debug, PartialEq, Eq, Structural)]
pub enum PlanError {
    /// The time of the ingestion does not exist, or its year has more than
    /// four digits.
    NoSuchTime,
    /// The device identifier is not a single normal path component.
    InvalidPath,
}

/// Assembles the paths of an ingestion at the time `at`: the image file is
/// named after the time, and lies with the latest pointer file in the
/// device's directory, or below the uploads root where there is no device.
pub fn plan_ingestion(device_id: Option<&str>, at: &Timestamp) -> (out: Result<
    StoragePlan,
    PlanError,
>)
    ensures
        match out {
            Ok(plan) => {
                &&& at.is_valid()
                &&& is_safe_target(text_of(device_id), at.file_name())
                &&& plan@ == planned(text_of(device_id), at.file_name())
            },
            Err(PlanError::NoSuchTime) => !at.is_valid(),
            Err(PlanError::InvalidPath) => {
                &&& at.is_valid()
                &&& device_id matches Some(d) && !is_single_normal_component(d@)
            },
        },
{
    match image_file_name(at) {
        None => Err(PlanError::NoSuchTime),
        Some(name) => {
            proof {
                lemma_file_name_is_safe(*at);
            }
            match plan_storage(device_id, name.as_str()) {
                Ok(plan) => Ok(plan),
                Err(_) => Err(PlanError::InvalidPath),
            }
        },
    }
}

/// No segment of `s` is `..`, and `s` does not start at the root.
pub open spec fn stays_below(s: Seq<char>) -> bool {
    &&& segments(s)[0].len() > 0
    &&& forall|j: int| 0 <= j < segments(s).len() ==> !is_parent_dir(#[trigger] segments(s)[j])
}

/// The name of the latest pointer file is a single normal path component.
pub proof fn lemma_latest_name_is_safe()
    ensures
        is_single_normal_component("aaa-latest.jpg"@),
{
    reveal_strlit("aaa-latest.jpg");
    let name = "aaa-latest.jpg"@;
    assert(name.len() == 14);
    assert(is_token(name));
    lemma_plain_token_is_accepted(name);
}

/// The paths planned for a safe target cannot leave the uploads root: they
/// do not start at the root of the file system, and none of their segments
/// is `..`.
pub proof fn lemma_planned_paths_stay_below_root(device: Option<Seq<char>>, file_name: Seq<char>)
    requires
        is_safe_target(device, file_name),
    ensures
        stays_below(planned(device, file_name).image_path),
        stays_below(planned(device, file_name).latest_path),
{
    reveal_strlit("/");
    lemma_latest_name_is_safe();
    let latest = "aaa-latest.jpg"@;
    lemma_single_normal_shape(file_name);
    lemma_single_normal_shape(latest);
    match device {
        Some(d) => {
            lemma_single_normal_shape(d);
            assert("/"@ =~= seq!['/']);
            lemma_segments_nonempty(d);
            lemma_segments_nonempty(file_name);
            lemma_segments_nonempty(latest);
            lemma_segments_of_joined(d, file_name);
            lemma_segments_of_joined(d, latest);
        },
        None => {},
    }
}

/// The steps of one ingestion, and its two ends.
#[derive(Clone, Copy, Debug, PartialEq, Eq, Structural)]
pub enum Stage {
    /// Create the device's directory, and its parents, if absent.
    EnsureDirectory,
    /// Create or truncate the image file and copy the payload into it.
    WriteImage,
    /// Read the image file back and copy it over the latest pointer file.
    CopyToLatest,
    /// Every step succeeded.
    Done,
    /// A step failed; nothing is rolled back.
    Failed,
}

/// The step an ingestion starts with.
pub open spec fn first_stage_of(plan: PlanView) -> Stage {
    if plan.directory is Some {
        Stage::EnsureDirectory
    } else {
        Stage::WriteImage
    }
}

/// The stage that follows `stage` once its step has succeeded or failed.
pub open spec fn stage_after(stage: Stage, succeeded: bool) -> Stage {
    match stage {
        Stage::Done => Stage::Done,
        Stage::Failed => Stage::Failed,
        Stage::EnsureDirectory => if succeeded {
            Stage::WriteImage
        } else {
            Stage::Failed
        },
        Stage::WriteImage => if succeeded {
            Stage::CopyToLatest
        } else {
            Stage::Failed
        },
        Stage::CopyToLatest => if succeeded {
            Stage::Done
        } else {
            Stage::Failed
        },
    }
}

/// The step an ingestion starts with.
pub fn first_stage(plan: &StoragePlan) -> (stage: Stage)
    ensures
        stage == first_stage_of(plan@),
{
    if plan.directory.is_some() {
        Stage::EnsureDirectory
    } else {
        Stage::WriteImage
    }
}

/// The stage that follows `stage`, given how its step went.
pub fn next_stage(stage: Stage, succeeded: bool) -> (next: Stage)
    ensures
        next == stage_after(stage, succeeded),
{
    match stage {
        Stage::Done => Stage::Done,
        Stage::Failed => Stage::Failed,
        Stage::EnsureDirectory => if succeeded {
            Stage::WriteImage
        } else {
            Stage::Failed
        },
        Stage::WriteImage => if succeeded {
            Stage::CopyToLatest
        } else {
            Stage::Failed
        },
        Stage::CopyToLatest => if succeeded {
            Stage::Done
        } else {
            Stage::Failed
        },
    }
}

/// What lies below the uploads root: the directories, and each file's bytes.
pub struct Files {
    pub directories: Set<Seq<char>>,
    pub contents: Map<Seq<char>, Seq<u8>>,
}

/// What a step that succeeds does to the files.
pub open spec fn effect_of(stage: Stage, plan: PlanView, payload: Seq<u8>, before: Files) -> Files {
    match stage {
        Stage::EnsureDirectory => match plan.directory {
            Some(d) => Files {
                directories: before.directories.insert(d),
                contents: before.contents,
            },
            None => before,
        },
        Stage::WriteImage => Files {
            directories: before.directories,
            contents: before.contents.insert(plan.image_path, payload),
        },
        Stage::CopyToLatest => if before.contents.contains_key(plan.image_path) {
            Files {
                directories: before.directories,
                contents: before.contents.insert(
                    plan.latest_path,
                    before.contents[plan.image_path],
                ),
            }
        } else {
            before
        },
        Stage::Done => before,
        Stage::Failed => before,
    }
}

/// How many steps remain from a stage when each succeeds.
pub open spec fn steps_left(stage: Stage) -> nat {
    match stage {
        Stage::EnsureDirectory => 3,
        Stage::WriteImage => 2,
        Stage::CopyToLatest => 1,
        Stage::Done => 0,
        Stage::Failed => 0,
    }
}

/// The files after every step from `stage` on has succeeded.
pub open spec fn files_after(stage: Stage, plan: PlanView, payload: Seq<u8>, before: Files) -> Files
    decreases steps_left(stage),
{
    if steps_left(stage) == 0 {
        before
    } else {
        files_after(stage_after(stage, true), plan, payload, effect_of(stage, plan, payload, before))
    }
}

/// After an ingestion in which every step succeeded, the stored image file
/// and the latest pointer file both exist and both hold exactly the payload,
/// whatever was there before.
pub proof fn lemma_persisted_files_hold_payload(plan: PlanView, payload: Seq<u8>, before: Files)
    ensures
        ({
            let after = files_after(first_stage_of(plan), plan, payload, before);
            &&& after.contents.contains_key(plan.image_path)
            &&& after.contents.contains_key(plan.latest_path)
            &&& after.contents[plan.image_path] == payload
            &&& after.contents[plan.latest_path] == payload
            &&& after.contents[plan.image_path].len() == payload.len()
            &&& plan.directory matches Some(d) ==> after.directories.contains(d)
        }),
{
    reveal_with_fuel(files_after, 4);
}

/// An ingestion changes no file but its own two.
pub proof fn lemma_other_files_are_kept(
    plan: PlanView,
    payload: Seq<u8>,
    before: Files,
    other: Seq<char>,
)
    requires
        other != plan.image_path,
        other != plan.latest_path,
    ensures
        ({
            let after = files_after(first_stage_of(plan), plan, payload, before);
            &&& after.contents.contains_key(other) == before.contents.contains_key(other)
            &&& before.contents.contains_key(other) ==> after.contents[other]
                == before.contents[other]
        }),
{
    reveal_with_fuel(files_after, 4);
}

/// Of two ingestions that share a latest pointer file and run one after the
/// other under different image names, each stored image keeps its own
/// payload and the latest pointer file holds the later one, whole.
pub proof fn lemma_later_ingestion_wins(
    earlier: PlanView,
    later: PlanView,
    earlier_payload: Seq<u8>,
    later_payload: Seq<u8>,
    before: Files,
)
    requires
        earlier.latest_path == later.latest_path,
        earlier.image_path != later.image_path,
        earlier.image_path != later.latest_path,
    ensures
        ({
            let between = files_after(first_stage_of(earlier), earlier, earlier_payload, before);
            let after = files_after(first_stage_of(later), later, later_payload, between);
            &&& after.contents.contains_key(earlier.image_path)
            &&& after.contents[earlier.image_path] == earlier_payload
            &&& after.contents[later.image_path] == later_payload
            &&& after.contents[later.latest_path] == later_payload
        }),
{
    let between = files_after(first_stage_of(earlier), earlier, earlier_payload, before);
    lemma_persisted_files_hold_payload(earlier, earlier_payload, before);
    lemma_persisted_files_hold_payload(later, later_payload, between);
    lemma_other_files_are_kept(later, later_payload, between, earlier.image_path);
}

/// Every file holds one of `payloads`, whole.
pub open spec fn holds_whole_payloads(files: Files, payloads: Set<Seq<u8>>) -> bool {
    forall|path: Seq<char>| #[trigger]
        files.contents.contains_key(path) ==> payloads.contains(files.contents[path])
}

/// No step leaves a partial file: if every file held a whole payload before
/// a step, every file holds one after it. This holds step by step, so it
/// holds however the steps of several ingestions interleave.
pub proof fn lemma_steps_keep_files_whole(
    stage: Stage,
    plan: PlanView,
    payload: Seq<u8>,
    before: Files,
    payloads: Set<Seq<u8>>,
)
    requires
        holds_whole_payloads(before, payloads),
        payloads.contains(payload),
    ensures
        holds_whole_payloads(effect_of(stage, plan, payload, before), payloads),
{
    let after = effect_of(stage, plan, payload, before);
    assert forall|path: Seq<char>| #[trigger]
        after.contents.contains_key(path) implies payloads.contains(after.contents[path]) by {
        if before.contents.contains_key(path) {
            assert(payloads.contains(before.contents[path]));
        }
        if before.contents.contains_key(plan.image_path) {
            assert(payloads.contains(before.contents[plan.image_path]));
        }
    }
}

/// Right after the copy step the latest pointer file is identical to the
/// image file it was copied from, whoever wrote that file last.
pub proof fn lemma_copy_makes_latest_identical(plan: PlanView, payload: Seq<u8>, before: Files)
    requires
        before.contents.contains_key(plan.image_path),
    ensures
        ({
            let after = effect_of(Stage::CopyToLatest, plan, payload, before);
            &&& after.contents.contains_key(plan.latest_path)
            &&& after.contents.contains_key(plan.image_path)
            &&& after.contents[plan.latest_path] == after.contents[plan.image_path]
            &&& after.contents[plan.latest_path] == before.contents[plan.image_path]
        }),
{
}

/// Ensuring a directory twice is the same as ensuring it once, and ensuring
/// it never changes a file.
pub proof fn lemma_ensure_directory_is_idempotent(plan: PlanView, payload: Seq<u8>, before: Files)
    ensures
        ({
            let once = effect_of(Stage::EnsureDirectory, plan, payload, before);
            let twice = effect_of(Stage::EnsureDirectory, plan, payload, once);
            &&& twice.directories =~= once.directories
            &&& twice.contents == once.contents
            &&& once.contents == before.contents
            &&& before.directories.subset_of(once.directories)
        }),
{
}

/// The stages only move forward: a finished ingestion stays finished, and a
/// failed step ends it.
pub proof fn lemma_stages_move_forward(stage: Stage, succeeded: bool)
    ensures
        steps_left(stage_after(stage, succeeded)) <= steps_left(stage),
        steps_left(stage) > 0 ==> steps_left(stage_after(stage, succeeded)) < steps_left(stage),
        !succeeded && steps_left(stage) > 0 ==> stage_after(stage, succeeded) == Stage::Failed,
        stage_after(Stage::Done, succeeded) == Stage::Done,
        stage_after(Stage::Failed, succeeded) == Stage::Failed,
{
}

} // verus!
