//! Mounting one image.
//!
//! Mounting takes two buffers and two calls of the module-loading service.
//! This module decides what happens between them: a `MountSession` asks for
//! one action at a time, and the driver that carries the action out reports
//! the event that answers it. The session then says what comes next, down to
//! which buffers to give back when the service refuses the image.

use vstd::prelude::*;
use vstd::utf8::encode_utf8;
use crate::bytes::PAGE_SIZE;
use crate::error::LoaderError;
use crate::image::NroFile;

verus! {

/// Capacity of the name field of a module record.
pub const NAME_CAPACITY: usize = 256;

/// When the service resolves the symbols of a module that it mounts.
#[derive(Clone, Copy, Debug, PartialEq, Eq)]
pub enum BindingPolicy {
    /// All of them, at mount time.
    Now,
    /// Each one when it is first used.
    Lazy,
}

impl BindingPolicy {
    /// The number by which the service knows the policy.
    pub open spec fn spec_flag(self) -> i32 {
        match self {
            BindingPolicy::Now => 1,
            BindingPolicy::Lazy => 2,
        }
    }

    /// The number by which the service knows the policy.
    #[verifier::when_used_as_spec(spec_flag)]
    pub fn flag(self) -> (flag: i32)
        ensures
            flag == self.spec_flag(),
    {
        match self {
            BindingPolicy::Now => 1,
            BindingPolicy::Lazy => 2,
        }
    }
}

/// A choice among the two buffers of a mount attempt.
#[derive(Clone, Copy, Debug, PartialEq, Eq)]
pub struct Buffers {
    /// The page-aligned copy of the image.
    pub code: bool,
    /// The scratch segment for the image's uninitialised data.
    pub scratch: bool,
}

/// How far a mount attempt has come.
#[derive(Clone, Copy, Debug, PartialEq, Eq)]
pub enum MountStage {
    /// Nothing is allocated; the code buffer has been asked for.
    Prepared,
    /// The code buffer holds the image; the size of the scratch segment has
    /// been asked for.
    CodeAllocated,
    /// The service has sized the scratch segment, which has been asked for.
    SizeQueried { scratch_size: u64 },
    /// Both buffers exist; the service has been asked to mount the image.
    DataAllocated { scratch_size: u64 },
    /// The service has mounted the image and owns both buffers.
    Mounted,
    /// The service has refused the image.
    Failed,
}

/// What a driver reports to a `MountSession`.
#[derive(Clone, Copy, Debug, PartialEq, Eq)]
pub enum MountEvent {
    /// The code buffer is allocated and holds the image.
    CodeAllocated,
    /// The service answered the question for the scratch segment's size.
    ScratchSized { status: u32, size: u64 },
    /// The scratch segment is allocated.
    ScratchAllocated,
    /// The service answered the mount call.
    MountReturned { status: u32 },
}

/// What a `MountSession` asks its driver to do.
#[derive(Debug)]
pub enum MountAction {
    /// Allocate a buffer of `size` bytes on a boundary of `align` bytes and
    /// copy the image into it; answered by `MountEvent::CodeAllocated`.
    AllocateCode { size: usize, align: usize },
    /// Ask the service how large a scratch segment the image in the code
    /// buffer needs; answered by `MountEvent::ScratchSized`.
    QueryScratchSize,
    /// Allocate a buffer of `scratch_size` bytes on a boundary of `align`
    /// bytes; answered by `MountEvent::ScratchAllocated`.
    AllocateScratch { scratch_size: u64, align: usize },
    /// Call the service's mount on a zeroed module record that bears the
    /// session's name field, with the two buffers, the scratch segment's size
    /// and the binding policy; answered by `MountEvent::MountReturned`.
    Mount { scratch_size: u64, binding: BindingPolicy },
    /// Give back the buffers that `release` chooses, and end the attempt with
    /// `outcome`.
    Finish { release: Buffers, outcome: Result<(), LoaderError> },
    /// Nothing: the event answered no request of the session.
    Idle,
}

/// One attempt to mount one image.
#[derive(Debug)]
pub struct MountSession {
    name: String,
    image: Vec<u8>,
    stage: MountStage,
}

/// What a `MountSession` holds.
pub ghost struct MountView {
    pub name: Seq<char>,
    /// The image's bytes, until they have been copied into the code buffer.
    pub image: Seq<u8>,
    pub stage: MountStage,
}

impl View for MountSession {
    type V = MountView;

    closed spec fn view(&self) -> MountView {
        MountView { name: self.name@, image: self.image@, stage: self.stage }
    }
}

/// The name field of the module record of an image called `name`: the bytes
/// of the name, cut off at the field's capacity, and zeros behind them.
pub open spec fn name_field_of(name: Seq<char>) -> Seq<u8> {
    Seq::new(
        NAME_CAPACITY as nat,
        |i: int|
            if i < encode_utf8(name).len() {
                encode_utf8(name)[i]
            } else {
                0u8
            },
    )
}

/// The buffers that this system owns at a stage.
pub open spec fn held(stage: MountStage) -> Buffers {
    match stage {
        MountStage::CodeAllocated => Buffers { code: true, scratch: false },
        MountStage::SizeQueried { .. } => Buffers { code: true, scratch: false },
        MountStage::DataAllocated { .. } => Buffers { code: true, scratch: true },
        _ => Buffers { code: false, scratch: false },
    }
}

/// Whether an attempt has ended.
pub open spec fn is_over(stage: MountStage) -> bool {
    stage is Mounted || stage is Failed
}

/// The session after `event`, and what it asks for next.
///
/// An event that answers the pending request moves the attempt on; a status
/// other than zero ends it, with every buffer held at that point given back.
/// Any other event changes nothing.
pub open spec fn mount_step(session: MountView, event: MountEvent) -> (MountView, MountAction) {
    match (session.stage, event) {
        (MountStage::Prepared, MountEvent::CodeAllocated) => (
            MountView { name: session.name, image: Seq::empty(), stage: MountStage::CodeAllocated },
            MountAction::QueryScratchSize,
        ),
        (MountStage::CodeAllocated, MountEvent::ScratchSized { status, size }) => if status != 0 {
            (
                MountView { stage: MountStage::Failed, ..session },
                MountAction::Finish {
                    release: held(session.stage),
                    outcome: Err(LoaderError::InvalidModuleBuffer(status)),
                },
            )
        } else {
            (
                MountView { stage: MountStage::SizeQueried { scratch_size: size }, ..session },
                MountAction::AllocateScratch { scratch_size: size, align: PAGE_SIZE },
            )
        },
        (MountStage::SizeQueried { scratch_size }, MountEvent::ScratchAllocated) => (
            MountView { stage: MountStage::DataAllocated { scratch_size }, ..session },
            MountAction::Mount { scratch_size, binding: BindingPolicy::Lazy },
        ),
        (MountStage::DataAllocated { scratch_size }, MountEvent::MountReturned { status }) => if status
            != 0 {
            (
                MountView { stage: MountStage::Failed, ..session },
                MountAction::Finish {
                    release: held(session.stage),
                    outcome: Err(LoaderError::MountError(status)),
                },
            )
        } else {
            (
                MountView { stage: MountStage::Mounted, ..session },
                MountAction::Finish {
                    release: Buffers { code: false, scratch: false },
                    outcome: Ok(()),
                },
            )
        },
        _ => (session, MountAction::Idle),
    }
}

/// The session after a run of events, and the action that answered each.
pub open spec fn mount_run(session: MountView, events: Seq<MountEvent>) -> (
    MountView,
    Seq<MountAction>,
)
    decreases events.len(),
{
    if events.len() == 0 {
        (session, Seq::empty())
    } else {
        let (next, action) = mount_step(session, events.first());
        let (last, actions) = mount_run(next, events.drop_first());
        (last, seq![action] + actions)
    }
}

/// A session as `NroFile::mount` starts it.
pub open spec fn mount_started(name: Seq<char>, image: Seq<u8>) -> MountView {
    MountView { name, image, stage: MountStage::Prepared }
}

/// No buffer is lost. An attempt ends from a stage that is not over and
/// leaves this system with no buffer: a failure gives back exactly the
/// buffers held at that point, and a success gives back none, both buffers
/// having passed to the service.
pub proof fn lemma_finish_settles_buffers(session: MountView, event: MountEvent)
    ensures
        ({
            let (next, action) = mount_step(session, event);
            action matches MountAction::Finish { release, outcome } ==> {
                &&& !is_over(session.stage)
                &&& is_over(next.stage)
                &&& held(next.stage) == Buffers { code: false, scratch: false }
                &&& match outcome {
                    Ok(_) => {
                        &&& next.stage is Mounted
                        &&& release == Buffers { code: false, scratch: false }
                        &&& held(session.stage) == Buffers { code: true, scratch: true }
                    },
                    Err(_) => {
                        &&& next.stage is Failed
                        &&& release == held(session.stage)
                        &&& release.code
                    },
                }
            }
        }),
{
}

/// An attempt that is over answers every event with `Idle` and stays as it
/// is: it ends once.
pub proof fn lemma_over_is_idle(session: MountView, events: Seq<MountEvent>)
    requires
        is_over(session.stage),
    ensures
        mount_run(session, events) == (session, Seq::new(events.len(), |i: int| MountAction::Idle)),
    decreases events.len(),
{
    if events.len() > 0 {
        lemma_over_is_idle(session, events.drop_first());
        let idle = Seq::new(events.len(), |i: int| MountAction::Idle);
        let fewer = Seq::new(events.drop_first().len(), |i: int| MountAction::Idle);
        assert(seq![MountAction::Idle] + fewer =~= idle);
    } else {
        assert(Seq::new(events.len(), |i: int| MountAction::Idle) =~= Seq::empty());
    }
}

/// The course of an attempt whose driver answers each request in turn. A
/// size query that the service refuses ends it with `InvalidModuleBuffer` and
/// that status, and only the code buffer is given back. A mount call that the
/// service refuses ends it with `MountError` and that status, and both
/// buffers are given back. Otherwise the image is mounted, with a scratch
/// segment of the size that the service asked for and lazy binding, and no
/// buffer is given back.
pub proof fn lemma_mount_course(
    name: Seq<char>,
    image: Seq<u8>,
    size_status: u32,
    size: u64,
    mount_status: u32,
)
    ensures
        ({
            let events = seq![
                MountEvent::CodeAllocated,
                MountEvent::ScratchSized { status: size_status, size },
                MountEvent::ScratchAllocated,
                MountEvent::MountReturned { status: mount_status },
            ];
            let (last, actions) = mount_run(mount_started(name, image), events);
            if size_status != 0 {
                &&& last.stage is Failed
                &&& actions == seq![
                    MountAction::QueryScratchSize,
                    MountAction::Finish {
                        release: Buffers { code: true, scratch: false },
                        outcome: Err(LoaderError::InvalidModuleBuffer(size_status)),
                    },
                    MountAction::Idle,
                    MountAction::Idle,
                ]
            } else if mount_status != 0 {
                &&& last.stage is Failed
                &&& actions == seq![
                    MountAction::QueryScratchSize,
                    MountAction::AllocateScratch { scratch_size: size, align: PAGE_SIZE },
                    MountAction::Mount { scratch_size: size, binding: BindingPolicy::Lazy },
                    MountAction::Finish {
                        release: Buffers { code: true, scratch: true },
                        outcome: Err(LoaderError::MountError(mount_status)),
                    },
                ]
            } else {
                &&& last.stage is Mounted
                &&& actions == seq![
                    MountAction::QueryScratchSize,
                    MountAction::AllocateScratch { scratch_size: size, align: PAGE_SIZE },
                    MountAction::Mount { scratch_size: size, binding: BindingPolicy::Lazy },
                    MountAction::Finish {
                        release: Buffers { code: false, scratch: false },
                        outcome: Ok(()),
                    },
                ]
            }
        }),
{
    let e1 = MountEvent::CodeAllocated;
    let e2 = MountEvent::ScratchSized { status: size_status, size };
    let e3 = MountEvent::ScratchAllocated;
    let e4 = MountEvent::MountReturned { status: mount_status };
    let events = seq![e1, e2, e3, e4];
    let s0 = mount_started(name, image);
    let (s1, a1) = mount_step(s0, e1);
    let (s2, a2) = mount_step(s1, e2);
    let (s3, a3) = mount_step(s2, e3);
    let (s4, a4) = mount_step(s3, e4);
    assert(events.drop_first() =~= seq![e2, e3, e4]);
    assert(seq![e2, e3, e4].drop_first() =~= seq![e3, e4]);
    assert(seq![e3, e4].drop_first() =~= seq![e4]);
    assert(seq![e4].drop_first() =~= Seq::<MountEvent>::empty());
    assert(mount_run(s4, Seq::empty()) == (s4, Seq::<MountAction>::empty()));
    assert(mount_run(s3, seq![e4]) == (s4, seq![a4] + Seq::<MountAction>::empty()));
    assert(mount_run(s2, seq![e3, e4]).1 == seq![a3] + (seq![a4] + Seq::<MountAction>::empty()));
    assert(mount_run(s1, seq![e2, e3, e4]).1 == seq![a2] + (seq![a3] + (seq![a4] + Seq::<
        MountAction,
    >::empty())));
    assert(mount_run(s0, events).1 =~= seq![a1, a2, a3, a4]);
}

impl NroFile {
    /// Begins to mount the image: the session's first request is for the code
    /// buffer, as large as the image and on a page boundary.
    pub fn mount(self) -> (start: (MountSession, MountAction))
        ensures
            start.0@ == (MountView {
                name: self@.name,
                image: self@.data,
                stage: MountStage::Prepared,
            }),
            start.1 == (MountAction::AllocateCode {
                size: self@.data.len() as usize,
                align: PAGE_SIZE,
            }),
    {
        let (name, image) = self.into_parts();
        let size: usize = image.len();
        (
            MountSession { name, image, stage: MountStage::Prepared },
            MountAction::AllocateCode { size, align: PAGE_SIZE },
        )
    }
}

impl MountSession {
    /// How far the attempt has come.
    pub fn stage(&self) -> (stage: MountStage)
        ensures
            stage == self@.stage,
    {
        self.stage
    }

    /// The image's bytes, for the copy into the code buffer. Once the copy is
    /// reported, the session lets go of them.
    pub fn image(&self) -> (image: &Vec<u8>)
        ensures
            image@ == self@.image,
    {
        &self.image
    }

    /// The name field for the module record.
    pub fn name_field(&self) -> (field: Vec<u8>)
        ensures
            field@ == name_field_of(self@.name),
    {
        let bytes: &[u8] = self.name.as_str().as_bytes();
        let copied: usize = if bytes.len() < NAME_CAPACITY {
            bytes.len()
        } else {
            NAME_CAPACITY
        };
        let mut field: Vec<u8> = vec![0u8; NAME_CAPACITY];
        let mut i: usize = 0;
        while i < copied
            invariant
                i <= copied <= NAME_CAPACITY,
                copied <= bytes@.len(),
                field.len() == NAME_CAPACITY,
                forall|k: int|
                    0 <= k < NAME_CAPACITY ==> #[trigger] field[k] == (if k < i {
                        bytes@[k]
                    } else {
                        0u8
                    }),
            decreases copied - i,
        {
            field[i] = bytes[i];
            i += 1;
        }
        assert(field@ =~= name_field_of(self@.name));
        field
    }

    /// Takes in `event` and says what to do next.
    pub fn step(&mut self, event: MountEvent) -> (action: MountAction)
        ensures
            (final(self)@, action) == mount_step(old(self)@, event),
    {
        match (self.stage, event) {
            (MountStage::Prepared, MountEvent::CodeAllocated) => {
                self.image = Vec::new();
                self.stage = MountStage::CodeAllocated;
                MountAction::QueryScratchSize
            },
            (MountStage::CodeAllocated, MountEvent::ScratchSized { status, size }) => {
                if status != 0 {
                    self.stage = MountStage::Failed;
                    MountAction::Finish {
                        release: Buffers { code: true, scratch: false },
                        outcome: Err(LoaderError::InvalidModuleBuffer(status)),
                    }
                } else {
                    self.stage = MountStage::SizeQueried { scratch_size: size };
                    MountAction::AllocateScratch { scratch_size: size, align: PAGE_SIZE }
                }
            },
            (MountStage::SizeQueried { scratch_size }, MountEvent::ScratchAllocated) => {
                self.stage = MountStage::DataAllocated { scratch_size };
                MountAction::Mount { scratch_size, binding: BindingPolicy::Lazy }
            },
            (MountStage::DataAllocated { scratch_size }, MountEvent::MountReturned { status }) => {
                if status != 0 {
                    self.stage = MountStage::Failed;
                    MountAction::Finish {
                        release: Buffers { code: true, scratch: true },
                        outcome: Err(LoaderError::MountError(status)),
                    }
                } else {
                    self.stage = MountStage::Mounted;
                    MountAction::Finish {
                        release: Buffers { code: false, scratch: false },
                        outcome: Ok(()),
                    }
                }
            },
            _ => MountAction::Idle,
        }
    }
}

} // verus!
