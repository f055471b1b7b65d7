//! The decisions of the high-level publish and upsert workflows.
//!
//! The workflows look an item up, check their request, decide for every
//! upload whether it is sent, skipped, or stops the workflow, and report
//! what was uploaded and skipped. Each of these decisions is a function
//! here; the requests themselves are sent by the caller.

use vstd::prelude::*;

use crate::error::InternetArchiveError;
use crate::ids::ItemIdentifier;
use crate::metadata::{contains_projection, metadata_contains_projection, ItemMetadata};
use crate::model::{no_file_named, Item, MetadataWriteResponse};
use crate::poll::AttemptOutcome;
use crate::retry::{is_retryable_transfer_error, retryable_error};
use crate::text::append_str;
use crate::upload::{FileConflictPolicy, UploadOptions, UploadSpec};

verus! {

/// Request used by high-level publish and upsert helpers.
#[derive(Debug)]
pub struct PublishRequest {
    /// Item identifier to create or update.
    pub identifier: ItemIdentifier,
    /// Desired metadata document.
    pub metadata: ItemMetadata,
    /// Files to upload.
    pub uploads: Vec<UploadSpec>,
    /// Conflict policy for uploads targeting existing names.
    pub conflict_policy: FileConflictPolicy,
    /// Per-upload options.
    pub upload_options: UploadOptions,
    /// Optional bounded wait for catalog visibility after every file
    /// uploads, in milliseconds.
    ///
    /// `None` (the default) returns as soon as all uploads complete.
    /// `Some(ms)` polls up to `ms` milliseconds for the item to project the
    /// uploaded files and metadata, and still succeeds if that wait times
    /// out.
    pub wait_for_visibility: Option<u64>,
}

impl PublishRequest {
    /// Creates a new publish request with default overwrite behavior, no
    /// upload option set, and no visibility wait.
    pub fn new(identifier: ItemIdentifier, metadata: ItemMetadata, uploads: Vec<UploadSpec>) -> (r:
        Self)
        ensures
            r.identifier == identifier,
            r.metadata == metadata,
            r.uploads == uploads,
            r.conflict_policy == FileConflictPolicy::Overwrite,
            !r.upload_options.skip_derive && !r.upload_options.keep_old_version,
            !r.upload_options.interactive_priority && r.upload_options.size_hint is None,
            r.wait_for_visibility is None,
    {
        PublishRequest {
            identifier,
            metadata,
            uploads,
            conflict_policy: FileConflictPolicy::Overwrite,
            upload_options: UploadOptions::default(),
            wait_for_visibility: None,
        }
    }

    /// Sets a bounded wait, in milliseconds, for catalog visibility after
    /// uploading.
    pub fn wait_for_visibility(self, max_wait_ms: u64) -> (r: Self)
        ensures
            r.identifier == self.identifier,
            r.metadata == self.metadata,
            r.uploads == self.uploads,
            r.conflict_policy == self.conflict_policy,
            r.upload_options == self.upload_options,
            r.wait_for_visibility == Some(max_wait_ms),
    {
        PublishRequest { wait_for_visibility: Some(max_wait_ms), ..self }
    }
}

/// Result returned by high-level publish or upsert helpers.
#[derive(Debug)]
pub struct PublishOutcome {
    /// Final item state after the workflow, when catalog projection was
    /// confirmed. `None` is not a failure: the files were uploaded.
    pub item: Option<Item>,
    /// Whether the item was created during this workflow.
    pub created: bool,
    /// File names uploaded during this workflow.
    pub uploaded_files: Vec<String>,
    /// File names skipped because of the selected policy.
    pub skipped_files: Vec<String>,
    /// Whether metadata was updated through MDAPI after the upload step.
    pub metadata_changed: bool,
}

impl PublishOutcome {
    /// Returns whether the item was confirmed projected into the public catalog.
    pub fn projection_confirmed(&self) -> (r: bool)
        ensures
            r == self.item is Some,
    {
        self.item.is_some()
    }
}

/// The text of the error for an item that exists already.
pub open spec fn already_exists_message(identifier: Seq<char>) -> Seq<char> {
    "item "@ + identifier + " already exists"@
}

/// The message of the error for a workflow without uploads.
pub open spec fn no_uploads_message() -> Seq<char> {
    "Internet Archive item workflows require at least one upload"@
}

/// The error for an item that exists already.
fn already_exists(identifier: &ItemIdentifier) -> (r: InternetArchiveError)
    ensures
        r matches InternetArchiveError::InvalidState(m) && m@ == already_exists_message(identifier@),
{
    let mut m = "item ".to_owned();
    append_str(&mut m, identifier.as_str());
    append_str(&mut m, " already exists");
    InternetArchiveError::InvalidState(m)
}

/// Decides a publish from the lookup of its item, which runs after the
/// identifier passed the bucket-creation check: an item that exists stops
/// the publish, a missing one lets it go on, any other failure is returned.
pub fn publish_lookup(identifier: &ItemIdentifier, lookup: Result<Item, InternetArchiveError>) -> (r:
    Result<(), InternetArchiveError>)
    ensures
        match lookup {
            Ok(_) => r matches Err(InternetArchiveError::InvalidState(m)) && m@
                == already_exists_message(identifier@),
            Err(InternetArchiveError::ItemNotFound { .. }) => r is Ok,
            Err(e) => r == Err::<(), InternetArchiveError>(e),
        },
{
    match lookup {
        Ok(_) => Err(already_exists(identifier)),
        Err(InternetArchiveError::ItemNotFound { .. }) => Ok(()),
        Err(e) => Err(e),
    }
}

/// Decides an upsert from the lookup of its item: the existing item, no
/// item when it is missing, or the failure.
pub fn upsert_lookup(lookup: Result<Item, InternetArchiveError>) -> (r: Result<
    Option<Item>,
    InternetArchiveError,
>)
    ensures
        match lookup {
            Ok(item) => r == Ok::<Option<Item>, InternetArchiveError>(Some(item)),
            Err(InternetArchiveError::ItemNotFound { .. }) => r == Ok::<
                Option<Item>,
                InternetArchiveError,
            >(None),
            Err(e) => r == Err::<Option<Item>, InternetArchiveError>(e),
        },
{
    match lookup {
        Ok(item) => Ok(Some(item)),
        Err(InternetArchiveError::ItemNotFound { .. }) => Ok(None),
        Err(e) => Err(e),
    }
}

/// Checks a workflow before any upload: it needs at least one upload, and
/// an item that must be created may not exist already.
pub fn check_workflow_request(request: &PublishRequest, exists: bool, must_create: bool) -> (r:
    Result<(), InternetArchiveError>)
    ensures
        request.uploads@.len() == 0 ==> (r matches Err(InternetArchiveError::InvalidState(m)) && m@
            == no_uploads_message()),
        request.uploads@.len() > 0 && must_create && exists ==> (r matches Err(
            InternetArchiveError::InvalidState(m),
        ) && m@ == already_exists_message(request.identifier@)),
        request.uploads@.len() > 0 && !(must_create && exists) ==> r is Ok,
{
    if request.uploads.len() == 0 {
        return Err(
            InternetArchiveError::InvalidState(
                "Internet Archive item workflows require at least one upload".to_owned(),
            ),
        );
    }
    if must_create && exists {
        return Err(already_exists(&request.identifier));
    }
    Ok(())
}

/// What a workflow does with one upload to an existing item.
#[derive(Clone, Copy, Debug, PartialEq, Eq, Structural)]
pub enum UploadStep {
    /// Upload the file at this position with these options.
    Upload { index: usize, options: UploadOptions },
    /// Skip the file at this position: it exists and the policy skips it.
    Skip { index: usize },
    /// Stop with a conflict on the file at this position.
    Conflict { index: usize },
}

/// The step for the upload at `index`, given whether the item already has
/// a file of that name.
pub open spec fn step_for(
    present: bool,
    policy: FileConflictPolicy,
    options: UploadOptions,
    index: usize,
) -> UploadStep {
    if present && policy == FileConflictPolicy::Error {
        UploadStep::Conflict { index }
    } else if present && policy == FileConflictPolicy::Skip {
        UploadStep::Skip { index }
    } else if present && policy == FileConflictPolicy::OverwriteKeepingHistory {
        UploadStep::Upload { index, options: UploadOptions { keep_old_version: true, ..options } }
    } else {
        UploadStep::Upload { index, options }
    }
}

/// Whether an item has a file named `name`.
pub open spec fn has_file(item: Item, name: Seq<char>) -> bool {
    !no_file_named(item.files@, name)
}

/// The step for the upload at `i` of `uploads` to `existing`.
pub open spec fn planned_step(
    uploads: Seq<UploadSpec>,
    existing: Item,
    policy: FileConflictPolicy,
    options: UploadOptions,
    i: int,
) -> UploadStep {
    step_for(has_file(existing, uploads[i].filename@), policy, options, i as usize)
}

/// Plans the uploads to an existing item, in order. A file the item does
/// not have is uploaded. A file it has is uploaded again under the
/// overwrite policies (keeping the old version under
/// `OverwriteKeepingHistory`), skipped under `Skip`, and under `Error`
/// stops the plan with a conflict: no later upload is planned.
pub fn plan_existing_uploads(
    uploads: &Vec<UploadSpec>,
    existing: &Item,
    policy: FileConflictPolicy,
    options: UploadOptions,
) -> (r: Vec<UploadStep>)
    ensures
        r@.len() <= uploads@.len(),
        forall|i: int|
            0 <= i < r@.len() ==> #[trigger] r@[i] == planned_step(
                uploads@,
                *existing,
                policy,
                options,
                i,
            ),
        forall|i: int| 0 <= i < r@.len() - 1 ==> !(#[trigger] r@[i] is Conflict),
        r@.len() == uploads@.len() || (r@.len() > 0 && r@.last() is Conflict),
{
    let n = uploads.len();
    let mut steps: Vec<UploadStep> = Vec::new();
    let mut i: usize = 0;
    while i < n
        invariant
            n == uploads@.len(),
            i <= n,
            steps@.len() == i,
            forall|j: int|
                0 <= j < i ==> #[trigger] steps@[j] == planned_step(
                    uploads@,
                    *existing,
                    policy,
                    options,
                    j,
                ),
            forall|j: int| 0 <= j < i ==> !(#[trigger] steps@[j] is Conflict),
        decreases n - i,
    {
        let present = existing.file_position(uploads[i].filename.as_str()).is_some();
        let step = if present && policy == FileConflictPolicy::Error {
            UploadStep::Conflict { index: i }
        } else if present && policy == FileConflictPolicy::Skip {
            UploadStep::Skip { index: i }
        } else if present && policy == FileConflictPolicy::OverwriteKeepingHistory {
            UploadStep::Upload { index: i, options: UploadOptions { keep_old_version: true, ..options } }
        } else {
            UploadStep::Upload { index: i, options }
        };
        assert(step == planned_step(uploads@, *existing, policy, options, i as int));
        steps.push(step);
        if present && policy == FileConflictPolicy::Error {
            return steps;
        }
        i = i + 1;
    }
    steps
}

/// The names of the files a plan uploads, in order.
pub open spec fn uploaded_names(uploads: Seq<UploadSpec>, steps: Seq<UploadStep>) -> Seq<Seq<char>>
    decreases steps.len(),
{
    if steps.len() == 0 {
        Seq::empty()
    } else {
        let rest = uploaded_names(uploads, steps.drop_last());
        match steps.last() {
            UploadStep::Upload { index, .. } => rest.push(uploads[index as int].filename@),
            _ => rest,
        }
    }
}

/// The names of the files a plan skips, in order.
pub open spec fn skipped_names(uploads: Seq<UploadSpec>, steps: Seq<UploadStep>) -> Seq<Seq<char>>
    decreases steps.len(),
{
    if steps.len() == 0 {
        Seq::empty()
    } else {
        let rest = skipped_names(uploads, steps.drop_last());
        match steps.last() {
            UploadStep::Skip { index } => rest.push(uploads[index as int].filename@),
            _ => rest,
        }
    }
}

/// The number of conflicts in a plan.
pub open spec fn conflicts(steps: Seq<UploadStep>) -> nat
    decreases steps.len(),
{
    if steps.len() == 0 {
        0
    } else {
        conflicts(steps.drop_last()) + if steps.last() is Conflict {
            1nat
        } else {
            0nat
        }
    }
}

/// The names a completed plan reports: the files it uploaded and the files
/// it skipped, each in order.
pub fn reported_files(uploads: &Vec<UploadSpec>, steps: &Vec<UploadStep>) -> (r: (
    Vec<String>,
    Vec<String>,
))
    requires
        forall|i: int|
            0 <= i < steps@.len() ==> match #[trigger] steps@[i] {
                UploadStep::Upload { index, .. } => index < uploads@.len(),
                UploadStep::Skip { index } => index < uploads@.len(),
                UploadStep::Conflict { index } => index < uploads@.len(),
            },
    ensures
        r.0@.map_values(|s: String| s@) == uploaded_names(uploads@, steps@),
        r.1@.map_values(|s: String| s@) == skipped_names(uploads@, steps@),
{
    let n = steps.len();
    let mut uploaded: Vec<String> = Vec::new();
    let mut skipped: Vec<String> = Vec::new();
    let mut i: usize = 0;
    while i < n
        invariant
            n == steps@.len(),
            i <= n,
            forall|k: int|
                0 <= k < steps@.len() ==> match #[trigger] steps@[k] {
                    UploadStep::Upload { index, .. } => index < uploads@.len(),
                    UploadStep::Skip { index } => index < uploads@.len(),
                    UploadStep::Conflict { index } => index < uploads@.len(),
                },
            uploaded@.map_values(|s: String| s@) == uploaded_names(uploads@, steps@.take(i as int)),
            skipped@.map_values(|s: String| s@) == skipped_names(uploads@, steps@.take(i as int)),
        decreases n - i,
    {
        let ghost before_u = uploaded@;
        let ghost before_s = skipped@;
        assert(steps@.take(i + 1).drop_last() =~= steps@.take(i as int));
        assert(steps@.take(i + 1).last() == steps@[i as int]);
        match steps[i] {
            UploadStep::Upload { index, .. } => {
                uploaded.push(uploads[index].filename.clone());
                assert(uploaded@.map_values(|s: String| s@) =~= before_u.map_values(
                    |s: String| s@,
                ).push(uploads@[index as int].filename@));
            },
            UploadStep::Skip { index } => {
                skipped.push(uploads[index].filename.clone());
                assert(skipped@.map_values(|s: String| s@) =~= before_s.map_values(
                    |s: String| s@,
                ).push(uploads@[index as int].filename@));
            },
            UploadStep::Conflict { .. } => {},
        }
        i = i + 1;
    }
    assert(steps@.take(n as int) =~= steps@);
    (uploaded, skipped)
}

/// The names of the uploads, in order.
pub open spec fn upload_filenames(uploads: Seq<UploadSpec>) -> Seq<Seq<char>> {
    uploads.map_values(|u: UploadSpec| u.filename@)
}

/// What the creation of a new item reports: every upload's name, in the
/// order they were sent, and whether the metadata update that followed the
/// creation, if one was made, queued a task.
pub fn creation_report(uploads: &Vec<UploadSpec>, update: Option<&MetadataWriteResponse>) -> (r: (
    Vec<String>,
    bool,
))
    ensures
        r.0@.map_values(|s: String| s@) == upload_filenames(uploads@),
        r.1 == (match update {
            Some(resp) => resp.task_id is Some,
            None => false,
        }),
{
    let n = uploads.len();
    let mut names: Vec<String> = Vec::new();
    let mut i: usize = 0;
    while i < n
        invariant
            n == uploads@.len(),
            i <= n,
            names@.map_values(|s: String| s@) == upload_filenames(uploads@.take(i as int)),
        decreases n - i,
    {
        let ghost before = names@;
        names.push(uploads[i].filename.clone());
        assert(upload_filenames(uploads@.take(i + 1)) =~= upload_filenames(
            uploads@.take(i as int),
        ).push(uploads@[i as int].filename@));
        assert(names@.map_values(|s: String| s@) =~= before.map_values(|s: String| s@).push(
            uploads@[i as int].filename@,
        ));
        i = i + 1;
    }
    assert(uploads@.take(n as int) =~= uploads@);
    let changed = match update {
        Some(resp) => resp.task_id.is_some(),
        None => false,
    };
    (names, changed)
}

/// Every step of a plan is uploaded, skipped or a conflict: the uploaded
/// and skipped names together with the conflicts number the steps.
pub proof fn lemma_plan_partition(uploads: Seq<UploadSpec>, steps: Seq<UploadStep>)
    ensures
        uploaded_names(uploads, steps).len() + skipped_names(uploads, steps).len() + conflicts(
            steps,
        ) == steps.len(),
    decreases steps.len(),
{
    if steps.len() > 0 {
        lemma_plan_partition(uploads, steps.drop_last());
    }
}

/// Planned conflicts are counted by [`conflicts`]: a plan with no conflict
/// step has none.
proof fn lemma_no_conflicts(steps: Seq<UploadStep>)
    requires
        forall|i: int| 0 <= i < steps.len() ==> !(#[trigger] steps[i] is Conflict),
    ensures
        conflicts(steps) == 0,
    decreases steps.len(),
{
    if steps.len() > 0 {
        assert(steps.drop_last().len() == steps.len() - 1);
        assert forall|i: int| 0 <= i < steps.drop_last().len() implies !(
        #[trigger] steps.drop_last()[i] is Conflict) by {
            assert(steps.drop_last()[i] == steps[i]);
        }
        lemma_no_conflicts(steps.drop_last());
        assert(!(steps[steps.len() - 1] is Conflict));
    }
}

/// A plan of uploads to an existing item that ends without a conflict
/// accounts for every upload exactly once: each is reported either as
/// uploaded or as skipped.
pub proof fn lemma_completed_plan_reports_every_upload(
    uploads: Seq<UploadSpec>,
    existing: Item,
    policy: FileConflictPolicy,
    options: UploadOptions,
    steps: Seq<UploadStep>,
)
    requires
        steps.len() <= uploads.len(),
        forall|i: int|
            0 <= i < steps.len() ==> #[trigger] steps[i] == planned_step(
                uploads,
                existing,
                policy,
                options,
                i,
            ),
        steps.len() == uploads.len() || (steps.len() > 0 && steps.last() is Conflict),
        forall|i: int| 0 <= i < steps.len() ==> !(#[trigger] steps[i] is Conflict),
    ensures
        steps.len() == uploads.len(),
        uploaded_names(uploads, steps).len() + skipped_names(uploads, steps).len()
            == uploads.len(),
{
    if steps.len() > 0 && steps.last() is Conflict {
        assert(steps[steps.len() - 1] is Conflict);
    }
    lemma_no_conflicts(steps);
    lemma_plan_partition(uploads, steps);
}

/// Under the `Error` policy a planned step is a conflict exactly when the
/// item already has that file; under `Skip` a skip exactly then; and a file
/// the item lacks is always uploaded with the request's options.
pub proof fn lemma_step_follows_policy(
    present: bool,
    policy: FileConflictPolicy,
    options: UploadOptions,
    index: usize,
)
    ensures
        (step_for(present, policy, options, index) is Conflict) <==> (present && policy
            == FileConflictPolicy::Error),
        (step_for(present, policy, options, index) is Skip) <==> (present && policy
            == FileConflictPolicy::Skip),
        !present ==> step_for(present, policy, options, index) == (UploadStep::Upload {
            index,
            options,
        }),
        (step_for(present, policy, options, index) matches UploadStep::Upload { index: j, options: o }
            ==> j == index && (o.keep_old_version == (options.keep_old_version || (present
            && policy == FileConflictPolicy::OverwriteKeepingHistory))) && o.skip_derive
            == options.skip_derive && o.interactive_priority == options.interactive_priority
            && o.size_hint == options.size_hint),
{
}

/// Whether an item shows what a workflow wrote: every uploaded file, and
/// every key of the desired metadata with its value.
pub open spec fn shows_projection(
    item: Item,
    uploaded: Seq<Seq<char>>,
    desired: Map<Seq<char>, crate::json::JsonValueView>,
) -> bool {
    &&& forall|i: int| 0 <= i < uploaded.len() ==> has_file(item, #[trigger] uploaded[i])
    &&& contains_projection(item.metadata@, desired)
}

/// Whether an item shows every uploaded file and the desired metadata.
pub fn item_shows_projection(item: &Item, uploaded: &Vec<String>, desired: &ItemMetadata) -> (r:
    bool)
    ensures
        r == shows_projection(*item, uploaded@.map_values(|s: String| s@), desired@),
{
    let ghost names = uploaded@.map_values(|s: String| s@);
    let n = uploaded.len();
    let mut i: usize = 0;
    while i < n
        invariant
            n == uploaded@.len() == names.len(),
            names == uploaded@.map_values(|s: String| s@),
            i <= n,
            forall|j: int| 0 <= j < i ==> has_file(*item, #[trigger] names[j]),
        decreases n - i,
    {
        if item.file_position(uploaded[i].as_str()).is_none() {
            assert(!has_file(*item, names[i as int]));
            return false;
        }
        i = i + 1;
    }
    metadata_contains_projection(&item.metadata, desired)
}

/// How one read of an item during a visibility wait ends. A read that
/// finds the item ends the wait when `projection` is `None`, or when the
/// item shows the uploaded files and desired metadata it names; otherwise
/// the item is not visible yet. A missing item or a transient failure
/// means not visible yet; any other failure ends the wait.
pub fn visibility_attempt(
    result: &Result<Item, InternetArchiveError>,
    projection: Option<(&Vec<String>, &ItemMetadata)>,
) -> (r: AttemptOutcome)
    ensures
        match result {
            Ok(item) => match projection {
                None => r == AttemptOutcome::Success,
                Some((uploaded, desired)) => r == (if shows_projection(
                    *item,
                    uploaded@.map_values(|s: String| s@),
                    desired@,
                ) {
                    AttemptOutcome::Success
                } else {
                    AttemptOutcome::NotFound
                }),
            },
            Err(e) => r == (if e is ItemNotFound || retryable_error(*e) {
                AttemptOutcome::NotFound
            } else {
                AttemptOutcome::Failed
            }),
        },
{
    match result {
        Ok(item) => match projection {
            None => AttemptOutcome::Success,
            Some((uploaded, desired)) => {
                if item_shows_projection(item, uploaded, desired) {
                    AttemptOutcome::Success
                } else {
                    AttemptOutcome::NotFound
                }
            },
        },
        Err(e) => {
            if matches!(e, InternetArchiveError::ItemNotFound { .. }) || is_retryable_transfer_error(e) {
                AttemptOutcome::NotFound
            } else {
                AttemptOutcome::Failed
            }
        },
    }
}

/// What a visibility wait reports when it ends after the read `last`,
/// judged `outcome`: the item once it is visible, no item when the wait
/// ran out while the item was not visible yet, and any other failure as it
/// is. Running out of time never fails the wait.
pub fn visibility_outcome(last: Result<Item, InternetArchiveError>, outcome: AttemptOutcome) -> (r:
    Result<Option<Item>, InternetArchiveError>)
    ensures
        outcome == AttemptOutcome::NotFound ==> r == Ok::<Option<Item>, InternetArchiveError>(
            None,
        ),
        outcome == AttemptOutcome::Success ==> match last {
            Ok(item) => r == Ok::<Option<Item>, InternetArchiveError>(Some(item)),
            Err(_) => r == Ok::<Option<Item>, InternetArchiveError>(None),
        },
        outcome == AttemptOutcome::Failed ==> match last {
            Ok(_) => r == Ok::<Option<Item>, InternetArchiveError>(None),
            Err(e) => r == Err::<Option<Item>, InternetArchiveError>(e),
        },
{
    match outcome {
        AttemptOutcome::NotFound => Ok(None),
        _ => match last {
            Ok(item) => {
                if outcome == AttemptOutcome::Success {
                    Ok(Some(item))
                } else {
                    Ok(None)
                }
            },
            Err(e) => {
                if outcome == AttemptOutcome::Failed {
                    Err(e)
                } else {
                    Ok(None)
                }
            },
        },
    }
}

} // verus!
