//! Loading a batch of images: one registration for all of them, then one
//! mount attempt for each.
//!
//! A `Batch` decides; a driver acts. The driver reads the candidate files,
//! hands what it read to `mount_from_directory`, and then carries out one
//! `BatchAction` after another, reporting each answer as a `BatchEvent`.
//! A refused registration ends the batch. A candidate that could not be read,
//! or that the service refuses to mount, fails alone: its slot of the result
//! holds the error and the other candidates go on.

use std::collections::VecDeque;
use vstd::prelude::*;
use crate::bytes::{round_up, u32_at, PAGE_SIZE};
use crate::descriptor::{
    build_descriptor,
    listed_hashes,
    registration_record,
    HEADER_SIZE,
    MAX_HASHES,
    NUM_HASHES_FIELD,
    SIZE_FIELD,
};
use crate::digest::{ascending, digests_of, sha256, Sha256Hash, HASH_SIZE};
use crate::error::LoaderError;
use crate::image::{fixed, Image, NroFile};

verus! {

/// A file that passed the driver's filter: its name, and what reading it
/// gave.
#[derive(Debug)]
pub struct Candidate {
    pub name: String,
    pub contents: Result<Vec<u8>, std::io::Error>,
}

/// The result of a batch that was registered: one outcome for each candidate,
/// in the order in which the candidates were found, and the handle of the
/// registration.
pub struct MountInfo<M, R> {
    pub modules: Vec<Result<M, LoaderError>>,
    pub registration_info: R,
}

/// What a `MountInfo` holds.
pub ghost struct MountInfoView<M, R> {
    pub modules: Seq<Result<M, LoaderError>>,
    pub registration_info: R,
}

impl<M, R> View for MountInfo<M, R> {
    type V = MountInfoView<M, R>;

    open spec fn view(&self) -> MountInfoView<M, R> {
        MountInfoView { modules: self.modules@, registration_info: self.registration_info }
    }
}

/// How far a batch has come.
pub enum BatchStage<R> {
    /// The registration record is with the service.
    Registering,
    /// The service accepted the record and gave `handle`; the images are
    /// being mounted.
    Mounting { handle: R },
    /// The batch has ended.
    Finished,
}

/// What a driver reports to a `Batch`.
pub enum BatchEvent<M, R> {
    /// The service answered the registration call.
    Registered { status: u32, handle: R },
    /// The mount attempt for the image last asked for has ended.
    Mounted { outcome: Result<M, LoaderError> },
}

/// What a `Batch` asks its driver to do.
pub enum BatchAction<M, R> {
    /// Submit `record`, in memory on a boundary of `align` bytes, to the
    /// service's registration call; answered by `BatchEvent::Registered`.
    Register { record: Vec<u8>, align: usize },
    /// Mount `image`; answered by `BatchEvent::Mounted`.
    Mount { image: NroFile },
    /// End the batch with `result`. After a failure the memory of the record
    /// is free to be given back.
    Finish { result: Result<MountInfo<M, R>, LoaderError> },
    /// Nothing: the event answered no request of the batch.
    Idle,
}

/// What a `BatchAction` holds.
pub ghost enum BatchActionView<M, R> {
    Register { record: Seq<u8>, align: usize },
    Mount { image: Image },
    Finish { result: Result<MountInfoView<M, R>, LoaderError> },
    Idle,
}

impl<M, R> View for BatchAction<M, R> {
    type V = BatchActionView<M, R>;

    open spec fn view(&self) -> BatchActionView<M, R> {
        match *self {
            BatchAction::Register { record, align } => BatchActionView::Register {
                record: record@,
                align,
            },
            BatchAction::Mount { image } => BatchActionView::Mount { image: image@ },
            BatchAction::Finish { result } => BatchActionView::Finish {
                result: match result {
                    Ok(info) => Ok(info@),
                    Err(error) => Err(error),
                },
            },
            BatchAction::Idle => BatchActionView::Idle,
        }
    }
}

/// A batch of candidates on its way through registration and mounting.
pub struct Batch<M, R> {
    stage: BatchStage<R>,
    pending: VecDeque<Result<NroFile, LoaderError>>,
    modules: Vec<Result<M, LoaderError>>,
}

/// What a `Batch` holds.
pub ghost struct BatchView<M, R> {
    pub stage: BatchStage<R>,
    /// The candidates that no mount attempt has been asked for yet, in the
    /// order in which they were found.
    pub pending: Seq<Result<Image, LoaderError>>,
    /// The outcomes of the candidates before them, in the same order.
    pub modules: Seq<Result<M, LoaderError>>,
}

/// A prepared candidate, with the image as what it holds.
pub open spec fn plugin_view(plugin: Result<NroFile, LoaderError>) -> Result<Image, LoaderError> {
    match plugin {
        Ok(image) => Ok(image@),
        Err(error) => Err(error),
    }
}

impl<M, R> View for Batch<M, R> {
    type V = BatchView<M, R>;

    closed spec fn view(&self) -> BatchView<M, R> {
        BatchView {
            stage: self.stage,
            pending: self.pending@.map_values(|p: Result<NroFile, LoaderError>| plugin_view(p)),
            modules: self.modules@,
        }
    }
}

/// What preparing a candidate gives: the image with its header fixed up, or
/// the failure of the read.
pub open spec fn prepared(candidate: Candidate) -> Result<Image, LoaderError> {
    match candidate.contents {
        Ok(data) => Ok(Image { name: candidate.name@, data: fixed(data@) }),
        Err(error) => Err(LoaderError::IO(error)),
    }
}

/// The content hashes of the images among `plugins`, in their order. A
/// candidate that could not be prepared has none.
pub open spec fn prepared_digests(plugins: Seq<Result<Image, LoaderError>>) -> Seq<Seq<u8>>
    decreases plugins.len(),
{
    if plugins.len() == 0 {
        Seq::empty()
    } else {
        match plugins.last() {
            Ok(image) => prepared_digests(plugins.drop_last()).push(sha256(image.data)),
            Err(_) => prepared_digests(plugins.drop_last()),
        }
    }
}

/// A batch that is registered under `handle`, with `modules` decided and
/// `pending` to go: every candidate at the head of `pending` that could not
/// be prepared gets its failure as its outcome, with no mount attempt. The
/// first image is asked to be mounted; with no image left the batch ends
/// with all outcomes.
pub open spec fn settled<M, R>(
    pending: Seq<Result<Image, LoaderError>>,
    modules: Seq<Result<M, LoaderError>>,
    handle: R,
) -> (BatchView<M, R>, BatchActionView<M, R>)
    decreases pending.len(),
{
    if pending.len() == 0 {
        (
            BatchView { stage: BatchStage::Finished, pending: Seq::empty(), modules: Seq::empty() },
            BatchActionView::Finish {
                result: Ok(MountInfoView { modules, registration_info: handle }),
            },
        )
    } else {
        match pending.first() {
            Ok(image) => (
                BatchView {
                    stage: BatchStage::Mounting { handle },
                    pending: pending.drop_first(),
                    modules,
                },
                BatchActionView::Mount { image },
            ),
            Err(error) => settled(pending.drop_first(), modules.push(Err(error)), handle),
        }
    }
}

/// The batch after `event`, and what it asks for next.
///
/// A registration that the service refuses ends the batch with that status
/// and with no image mounted. An accepted one starts the mounting, and each
/// reported outcome is recorded for its candidate before the next image is
/// asked for. Any other event changes nothing.
pub open spec fn batch_step<M, R>(batch: BatchView<M, R>, event: BatchEvent<M, R>) -> (
    BatchView<M, R>,
    BatchActionView<M, R>,
) {
    match (batch.stage, event) {
        (BatchStage::Registering, BatchEvent::Registered { status, handle }) => if status != 0 {
            (
                BatchView {
                    stage: BatchStage::Finished,
                    pending: Seq::empty(),
                    modules: Seq::empty(),
                },
                BatchActionView::Finish { result: Err(LoaderError::RegistrationError(status)) },
            )
        } else {
            settled(batch.pending, batch.modules, handle)
        },
        (BatchStage::Mounting { handle }, BatchEvent::Mounted { outcome }) => settled(
            batch.pending,
            batch.modules.push(outcome),
            handle,
        ),
        _ => (batch, BatchActionView::Idle),
    }
}

/// The number of images among `plugins`.
pub open spec fn image_count(plugins: Seq<Result<Image, LoaderError>>) -> nat
    decreases plugins.len(),
{
    if plugins.len() == 0 {
        0
    } else if plugins.last() is Ok {
        image_count(plugins.drop_last()) + 1
    } else {
        image_count(plugins.drop_last())
    }
}

/// The outcome of every candidate of a registered batch, where `reported`
/// lists, in their order, the outcomes of the mount attempts: a candidate
/// that could not be prepared keeps its own failure, and an image gets the
/// outcome that was reported for it.
pub open spec fn outcomes<M>(
    plugins: Seq<Result<Image, LoaderError>>,
    reported: Seq<Result<M, LoaderError>>,
) -> Seq<Result<M, LoaderError>> {
    Seq::new(
        plugins.len(),
        |i: int|
            match plugins[i] {
                Ok(_) => reported[image_count(plugins.take(i)) as int],
                Err(error) => Err(error),
            },
    )
}

/// The batch after a run of events, and the action that answered each.
pub open spec fn batch_run<M, R>(batch: BatchView<M, R>, events: Seq<BatchEvent<M, R>>) -> (
    BatchView<M, R>,
    Seq<BatchActionView<M, R>>,
)
    decreases events.len(),
{
    if events.len() == 0 {
        (batch, Seq::empty())
    } else {
        let (next, action) = batch_step(batch, events.first());
        let (last, actions) = batch_run(next, events.drop_first());
        (last, seq![action] + actions)
    }
}

/// A batch as `mount_from_directory` starts it.
pub open spec fn started<M, R>(plugins: Seq<Result<Image, LoaderError>>) -> BatchView<M, R> {
    BatchView { stage: BatchStage::Registering, pending: plugins, modules: Seq::empty() }
}

/// A batch that has ended.
pub open spec fn ended<M, R>() -> BatchView<M, R> {
    BatchView { stage: BatchStage::Finished, pending: Seq::empty(), modules: Seq::empty() }
}

/// The record lists one hash for each image of the batch.
pub proof fn lemma_one_digest_per_image(plugins: Seq<Result<Image, LoaderError>>)
    ensures
        prepared_digests(plugins).len() == image_count(plugins),
    decreases plugins.len(),
{
    if plugins.len() > 0 {
        lemma_one_digest_per_image(plugins.drop_last());
    }
}

/// A batch that has ended answers every event with `Idle` and stays as it
/// is.
pub proof fn lemma_ended_batch_is_idle<M, R>(events: Seq<BatchEvent<M, R>>)
    ensures
        batch_run(ended::<M, R>(), events) == (
            ended::<M, R>(),
            Seq::new(events.len(), |i: int| BatchActionView::<M, R>::Idle),
        ),
    decreases events.len(),
{
    if events.len() > 0 {
        lemma_ended_batch_is_idle(events.drop_first());
        let idle = Seq::new(events.len(), |i: int| BatchActionView::<M, R>::Idle);
        let fewer = Seq::new(events.drop_first().len(), |i: int| BatchActionView::<M, R>::Idle);
        assert(seq![BatchActionView::<M, R>::Idle] + fewer =~= idle);
    } else {
        assert(Seq::new(events.len(), |i: int| BatchActionView::<M, R>::Idle) =~= Seq::empty());
    }
}

/// A registration that the service refuses ends the batch with that status,
/// however many candidates there are, and whatever is reported afterwards no
/// image is ever asked to be mounted.
pub proof fn lemma_refused_registration_mounts_nothing<M, R>(
    plugins: Seq<Result<Image, LoaderError>>,
    status: u32,
    handle: R,
    later: Seq<BatchEvent<M, R>>,
)
    requires
        status != 0,
    ensures
        ({
            let events = seq![BatchEvent::Registered { status, handle }] + later;
            let (last, actions) = batch_run(started::<M, R>(plugins), events);
            &&& last == ended::<M, R>()
            &&& actions.len() == events.len()
            &&& actions[0] == BatchActionView::<M, R>::Finish {
                result: Err(LoaderError::RegistrationError(status)),
            }
            &&& forall|i: int| 0 < i < actions.len() ==> actions[i] is Idle
        }),
{
    let events = seq![BatchEvent::Registered { status, handle }] + later;
    assert(events.drop_first() =~= later);
    lemma_ended_batch_is_idle(later);
}

/// The images at the head of `plugins` are among all of its images.
pub proof fn lemma_image_count_grows(plugins: Seq<Result<Image, LoaderError>>, i: int)
    requires
        0 <= i <= plugins.len(),
    ensures
        image_count(plugins.take(i)) <= image_count(plugins),
        i < plugins.len() ==> image_count(plugins.take(i + 1)) == image_count(plugins.take(i)) + (
        if plugins[i] is Ok {
            1nat
        } else {
            0nat
        }),
    decreases plugins.len() - i,
{
    if i < plugins.len() {
        assert(plugins.take(i + 1).drop_last() =~= plugins.take(i));
        lemma_image_count_grows(plugins, i + 1);
    } else {
        assert(plugins.take(i) =~= plugins);
    }
}

/// From the `i`-th candidate on, with the outcomes before it decided as
/// `outcomes` says, a registered batch that is told the remaining reported
/// outcomes ends with all of `outcomes`.
proof fn lemma_batch_goes_on<M, R>(
    plugins: Seq<Result<Image, LoaderError>>,
    reported: Seq<Result<M, LoaderError>>,
    handle: R,
    i: int,
)
    requires
        0 <= i <= plugins.len(),
        image_count(plugins) == reported.len(),
    ensures
        ({
            let (next, action) = settled(
                plugins.skip(i),
                outcomes(plugins, reported).take(i),
                handle,
            );
            let events = reported.skip(image_count(plugins.take(i)) as int).map_values(
                |outcome: Result<M, LoaderError>| BatchEvent::<M, R>::Mounted { outcome },
            );
            let (last, actions) = batch_run(next, events);
            &&& last == ended::<M, R>()
            &&& actions.len() == events.len()
            &&& (seq![action] + actions).last() == BatchActionView::<M, R>::Finish {
                result: Ok(
                    MountInfoView {
                        modules: outcomes(plugins, reported),
                        registration_info: handle,
                    },
                ),
            }
            &&& forall|k: int| 0 <= k < actions.len() ==> (seq![action] + actions)[k] is Mount
        }),
    decreases plugins.len() - i,
{
    let all = outcomes(plugins, reported);
    let done = image_count(plugins.take(i)) as int;
    let (next, action) = settled(plugins.skip(i), all.take(i), handle);
    let events = reported.skip(done).map_values(
        |outcome: Result<M, LoaderError>| BatchEvent::<M, R>::Mounted { outcome },
    );
    lemma_image_count_grows(plugins, i);
    if i == plugins.len() {
        assert(plugins.take(i) =~= plugins);
        assert(all.take(i) =~= all);
        assert(events =~= Seq::empty());
    } else {
        assert(plugins.skip(i).first() == plugins[i]);
        assert(plugins.skip(i).drop_first() =~= plugins.skip(i + 1));
        lemma_batch_goes_on(plugins, reported, handle, i + 1);
        let (next1, action1) = settled(plugins.skip(i + 1), all.take(i + 1), handle);
        let events1 = reported.skip(image_count(plugins.take(i + 1)) as int).map_values(
            |outcome: Result<M, LoaderError>| BatchEvent::<M, R>::Mounted { outcome },
        );
        let (last1, actions1) = batch_run(next1, events1);
        match plugins[i] {
            Err(error) => {
                assert(all.take(i + 1) =~= all.take(i).push(Err(error)));
                assert(events1 =~= events);
            },
            Ok(image) => {
                lemma_image_count_grows(plugins, i + 1);
                assert(done < reported.len());
                assert(all.take(i + 1) =~= all.take(i).push(reported[done]));
                assert(events.first() == BatchEvent::<M, R>::Mounted { outcome: reported[done] });
                assert(events.drop_first() =~= events1);
                assert(batch_step(next, events.first()) == (next1, action1));
                let actions = batch_run(next, events).1;
                assert(actions == seq![action1] + actions1);
                assert((seq![action] + actions).last() == (seq![action1] + actions1).last());
                assert forall|k: int| 0 <= k < actions.len() implies (seq![action] + actions)[k]
                    is Mount by {
                    if k > 0 {
                        assert((seq![action] + actions)[k] == (seq![action1] + actions1)[k - 1]);
                    }
                }
            },
        }
    }
}

/// What a registered batch comes to. The service accepts the registration
/// and gives `handle`, and the driver reports the outcome of each mount
/// attempt that it is asked for. Every request but the last is for a mount,
/// and the last action ends the batch with one outcome for each candidate, in
/// the order in which the candidates were found: its own failure for one that
/// could not be prepared, and for an image the outcome reported for it.
pub proof fn lemma_batch_outcomes<M, R>(
    plugins: Seq<Result<Image, LoaderError>>,
    reported: Seq<Result<M, LoaderError>>,
    handle: R,
)
    requires
        image_count(plugins) == reported.len(),
    ensures
        ({
            let events = seq![BatchEvent::<M, R>::Registered { status: 0, handle }]
                + reported.map_values(
                |outcome: Result<M, LoaderError>| BatchEvent::<M, R>::Mounted { outcome },
            );
            let (last, actions) = batch_run(started::<M, R>(plugins), events);
            &&& last == ended::<M, R>()
            &&& actions.len() == reported.len() + 1
            &&& actions.last() == BatchActionView::<M, R>::Finish {
                result: Ok(
                    MountInfoView {
                        modules: outcomes(plugins, reported),
                        registration_info: handle,
                    },
                ),
            }
            &&& forall|k: int| 0 <= k < reported.len() ==> actions[k] is Mount
            &&& outcomes(plugins, reported).len() == plugins.len()
        }),
{
    let mounted = reported.map_values(
        |outcome: Result<M, LoaderError>| BatchEvent::<M, R>::Mounted { outcome },
    );
    let events = seq![BatchEvent::<M, R>::Registered { status: 0, handle }] + mounted;
    assert(events.drop_first() =~= mounted);
    assert(plugins.skip(0) =~= plugins);
    assert(plugins.take(0) =~= Seq::empty());
    assert(outcomes(plugins, reported).take(0) =~= Seq::empty());
    assert(reported.skip(0) =~= reported);
    lemma_batch_goes_on(plugins, reported, handle, 0);
}

/// A mount attempt that fails, or succeeds, is felt in its own slot alone:
/// two runs of a batch whose reported outcomes differ for one image differ in
/// the outcome of that image and in no other.
pub proof fn lemma_outcome_stays_in_its_slot<M>(
    plugins: Seq<Result<Image, LoaderError>>,
    reported: Seq<Result<M, LoaderError>>,
    other: Seq<Result<M, LoaderError>>,
    k: int,
)
    requires
        image_count(plugins) == reported.len(),
        reported.len() == other.len(),
        0 <= k < reported.len(),
        forall|j: int| 0 <= j < reported.len() && j != k ==> reported[j] == other[j],
    ensures
        forall|i: int|
            0 <= i < plugins.len() && !(plugins[i] is Ok && image_count(plugins.take(i)) == k)
                ==> #[trigger] outcomes(plugins, reported)[i] == outcomes(plugins, other)[i],
        forall|i: int|
            0 <= i < plugins.len() && plugins[i] is Ok && image_count(plugins.take(i)) == k
                ==> #[trigger] outcomes(plugins, reported)[i] == reported[k],
{
    assert forall|i: int|
        0 <= i < plugins.len() && !(plugins[i] is Ok && image_count(plugins.take(i))
            == k) implies #[trigger] outcomes(plugins, reported)[i] == outcomes(plugins, other)[i] by {
        lemma_image_count_grows(plugins, i);
        lemma_image_count_grows(plugins, i + 1);
    }
}

/// Prepares a candidate: makes an image of what was read and fixes up its
/// header.
pub fn prepare(candidate: Candidate) -> (plugin: Result<NroFile, LoaderError>)
    ensures
        plugin_view(plugin) == prepared(candidate),
{
    match NroFile::open(candidate.name, candidate.contents) {
        Ok(image) => {
            let mut image = image;
            image.fix_bss_size();
            Ok(image)
        },
        Err(error) => Err(error),
    }
}

/// Starts a batch for `program_id` on the candidates of a directory, in the
/// order in which they were found: prepares each, and builds the record that
/// registers the images that could be prepared.
pub fn mount_from_directory<M, R>(program_id: u64, candidates: Vec<Candidate>) -> (start: (
    Batch<M, R>,
    BatchAction<M, R>,
))
    requires
        candidates.len() <= MAX_HASHES,
    ensures
        start.0@ == (BatchView::<M, R> {
            stage: BatchStage::Registering,
            pending: candidates@.map_values(|c: Candidate| prepared(c)),
            modules: Seq::empty(),
        }),
        start.1@ == (BatchActionView::<M, R>::Register {
            record: registration_record(
                program_id,
                prepared_digests(candidates@.map_values(|c: Candidate| prepared(c))),
            ),
            align: PAGE_SIZE,
        }),
        start.1 matches BatchAction::Register { record, align } && {
            let plugins = candidates@.map_values(|c: Candidate| prepared(c));
            &&& record@.len() == round_up(
                HEADER_SIZE + image_count(plugins) * HASH_SIZE,
                PAGE_SIZE as int,
            )
            &&& u32_at(record@, SIZE_FIELD as int) == record@.len()
            &&& u32_at(record@, NUM_HASHES_FIELD as int) == image_count(plugins)
            &&& ascending(listed_hashes(record@))
            &&& listed_hashes(record@).to_multiset() == prepared_digests(plugins).to_multiset()
        },
{
    let ghost plugins = candidates@.map_values(|c: Candidate| prepared(c));
    let count: usize = candidates.len();
    let mut pending: VecDeque<Result<NroFile, LoaderError>> = VecDeque::new();
    let mut hashes: Vec<Sha256Hash> = Vec::new();
    for candidate in it: candidates
        invariant
            count == it.seq().len(),
            plugins == it.seq().map_values(|c: Candidate| prepared(c)),
            pending@.map_values(|p: Result<NroFile, LoaderError>| plugin_view(p)) == plugins.take(
                it.index() as int,
            ),
            digests_of(hashes@) == prepared_digests(plugins.take(it.index() as int)),
            hashes.len() <= it.index(),
    {
        let ghost done = pending@.map_values(|p: Result<NroFile, LoaderError>| plugin_view(p));
        let plugin = prepare(candidate);
        proof {
            let taken = plugins.take(it.index() + 1);
            assert(taken.drop_last() =~= plugins.take(it.index() as int));
            assert(taken.last() == plugin_view(plugin));
        }
        match &plugin {
            Ok(image) => {
                let hash = image.hash();
                let ghost before = digests_of(hashes@);
                hashes.push(hash);
                assert(digests_of(hashes@) =~= before.push(hash@));
            },
            Err(_) => {},
        }
        pending.push_back(plugin);
        assert(pending@.map_values(|p: Result<NroFile, LoaderError>| plugin_view(p)) =~= done.push(
            plugin_view(plugin),
        ));
        assert(plugins.take(it.index() + 1) =~= done.push(plugin_view(plugin)));
    }
    proof {
        assert(plugins.take(count as int) =~= plugins);
        lemma_one_digest_per_image(plugins);
    }
    let record = build_descriptor(program_id, hashes);
    (
        Batch { stage: BatchStage::Registering, pending, modules: Vec::new() },
        BatchAction::Register { record, align: PAGE_SIZE },
    )
}

impl<M, R> Batch<M, R> {
    /// Decides the candidates at the head of the queue that need no mount
    /// attempt, and asks for the next one or ends the batch.
    fn settle(&mut self) -> (action: BatchAction<M, R>)
        requires
            old(self)@.stage is Mounting,
        ensures
            (final(self)@, action@) == settled(
                old(self)@.pending,
                old(self)@.modules,
                old(self)@.stage->handle,
            ),
    {
        loop
            invariant
                self@.stage == old(self)@.stage,
                self@.stage is Mounting,
                settled(self@.pending, self@.modules, self@.stage->handle) == settled(
                    old(self)@.pending,
                    old(self)@.modules,
                    old(self)@.stage->handle,
                ),
            decreases self.pending@.len(),
        {
            let ghost queue = self@.pending;
            let next = self.pending.pop_front();
            proof {
                if next is Some {
                    assert(self@.pending =~= queue.drop_first());
                    assert(queue.first() == plugin_view(next->Some_0));
                }
            }
            match next {
                None => {
                    let mut stage = BatchStage::Finished;
                    core::mem::swap(&mut self.stage, &mut stage);
                    let mut modules: Vec<Result<M, LoaderError>> = Vec::new();
                    core::mem::swap(&mut self.modules, &mut modules);
                    match stage {
                        BatchStage::Mounting { handle } => {
                            assert(self@.pending =~= Seq::empty());
                            return BatchAction::Finish {
                                result: Ok(MountInfo { modules, registration_info: handle }),
                            };
                        },
                        _ => {
                            return BatchAction::Idle;
                        },
                    }
                },
                Some(Ok(image)) => {
                    return BatchAction::Mount { image };
                },
                Some(Err(error)) => {
                    self.modules.push(Err(error));
                },
            }
        }
    }

    /// Takes in `event` and says what to do next.
    pub fn step(&mut self, event: BatchEvent<M, R>) -> (action: BatchAction<M, R>)
        ensures
            (final(self)@, action@) == batch_step(old(self)@, event),
    {
        match event {
            BatchEvent::Registered { status, handle } => {
                if !matches!(self.stage, BatchStage::Registering) {
                    return BatchAction::Idle;
                }
                if status != 0 {
                    self.stage = BatchStage::Finished;
                    self.pending.clear();
                    self.modules.clear();
                    assert(self@.pending =~= Seq::empty());
                    BatchAction::Finish { result: Err(LoaderError::RegistrationError(status)) }
                } else {
                    self.stage = BatchStage::Mounting { handle };
                    self.settle()
                }
            },
            BatchEvent::Mounted { outcome } => {
                if !matches!(self.stage, BatchStage::Mounting { .. }) {
                    return BatchAction::Idle;
                }
                self.modules.push(outcome);
                self.settle()
            },
        }
    }
}

} // verus!
