use nro_loader::error::LoaderError;
use nro_loader::image::NroFile;
use nro_loader::mount::{
    BindingPolicy, Buffers, MountAction, MountEvent, MountSession, MountStage, NAME_CAPACITY,
};

fn session(name: &str, data: Vec<u8>) -> MountSession {
    let (session, first) = NroFile::new(String::from(name), data).mount();
    assert!(matches!(first, MountAction::AllocateCode { .. }));
    session
}

#[test]
fn mount_asks_for_a_code_buffer_as_large_as_the_image() {
    let (session, first) = NroFile::new(String::from("a.nro"), vec![7; 1234]).mount();
    assert!(matches!(first, MountAction::AllocateCode { size: 1234, align: 4096 }));
    assert_eq!(session.stage(), MountStage::Prepared);
    assert_eq!(session.image(), &vec![7; 1234]);
}

#[test]
fn a_mount_that_the_service_accepts() {
    let mut session = session("a.nro", vec![1, 2, 3]);
    assert!(matches!(session.step(MountEvent::CodeAllocated), MountAction::QueryScratchSize));
    assert_eq!(session.stage(), MountStage::CodeAllocated);
    assert!(matches!(
        session.step(MountEvent::ScratchSized { status: 0, size: 0x3000 }),
        MountAction::AllocateScratch { scratch_size: 0x3000, align: 4096 }
    ));
    assert_eq!(session.stage(), MountStage::SizeQueried { scratch_size: 0x3000 });
    assert!(matches!(
        session.step(MountEvent::ScratchAllocated),
        MountAction::Mount { scratch_size: 0x3000, binding: BindingPolicy::Lazy }
    ));
    assert_eq!(session.stage(), MountStage::DataAllocated { scratch_size: 0x3000 });
    assert!(matches!(
        session.step(MountEvent::MountReturned { status: 0 }),
        MountAction::Finish { release: Buffers { code: false, scratch: false }, outcome: Ok(()) }
    ));
    assert_eq!(session.stage(), MountStage::Mounted);
}

#[test]
fn a_refused_size_query_gives_back_the_code_buffer() {
    let mut session = session("a.nro", vec![1, 2, 3]);
    session.step(MountEvent::CodeAllocated);
    let action = session.step(MountEvent::ScratchSized { status: 0x2A09, size: 0x9999 });
    assert!(matches!(
        action,
        MountAction::Finish {
            release: Buffers { code: true, scratch: false },
            outcome: Err(LoaderError::InvalidModuleBuffer(0x2A09)),
        }
    ));
    assert_eq!(session.stage(), MountStage::Failed);
}

#[test]
fn a_refused_mount_gives_back_both_buffers() {
    let mut session = session("a.nro", vec![1, 2, 3]);
    session.step(MountEvent::CodeAllocated);
    session.step(MountEvent::ScratchSized { status: 0, size: 64 });
    session.step(MountEvent::ScratchAllocated);
    let action = session.step(MountEvent::MountReturned { status: 0xFFFF_FFFF });
    assert!(matches!(
        action,
        MountAction::Finish {
            release: Buffers { code: true, scratch: true },
            outcome: Err(LoaderError::MountError(0xFFFF_FFFF)),
        }
    ));
    assert_eq!(session.stage(), MountStage::Failed);
}

#[test]
fn the_image_is_let_go_once_it_is_copied() {
    let mut session = session("a.nro", vec![5; 100]);
    assert_eq!(session.image().len(), 100);
    session.step(MountEvent::CodeAllocated);
    assert!(session.image().is_empty());
}

#[test]
fn events_that_answer_nothing_are_ignored() {
    let mut session = session("a.nro", vec![1]);
    assert!(matches!(session.step(MountEvent::ScratchAllocated), MountAction::Idle));
    assert!(matches!(session.step(MountEvent::MountReturned { status: 0 }), MountAction::Idle));
    assert!(matches!(
        session.step(MountEvent::ScratchSized { status: 5, size: 1 }),
        MountAction::Idle
    ));
    assert_eq!(session.stage(), MountStage::Prepared);
    assert_eq!(session.image(), &vec![1]);
    session.step(MountEvent::CodeAllocated);
    assert!(matches!(session.step(MountEvent::CodeAllocated), MountAction::Idle));
    assert!(matches!(session.step(MountEvent::MountReturned { status: 3 }), MountAction::Idle));
    assert_eq!(session.stage(), MountStage::CodeAllocated);
    session.step(MountEvent::ScratchSized { status: 0, size: 8 });
    assert!(matches!(
        session.step(MountEvent::ScratchSized { status: 0, size: 16 }),
        MountAction::Idle
    ));
    assert_eq!(session.stage(), MountStage::SizeQueried { scratch_size: 8 });
}

#[test]
fn an_attempt_ends_once() {
    let mut failed = session("a.nro", vec![1]);
    failed.step(MountEvent::CodeAllocated);
    failed.step(MountEvent::ScratchSized { status: 1, size: 0 });
    for event in [
        MountEvent::CodeAllocated,
        MountEvent::ScratchSized { status: 0, size: 4 },
        MountEvent::ScratchAllocated,
        MountEvent::MountReturned { status: 0 },
    ] {
        assert!(matches!(failed.step(event), MountAction::Idle));
        assert_eq!(failed.stage(), MountStage::Failed);
    }
    let mut mounted = session("b.nro", vec![1]);
    mounted.step(MountEvent::CodeAllocated);
    mounted.step(MountEvent::ScratchSized { status: 0, size: 4 });
    mounted.step(MountEvent::ScratchAllocated);
    mounted.step(MountEvent::MountReturned { status: 0 });
    assert!(matches!(mounted.step(MountEvent::MountReturned { status: 9 }), MountAction::Idle));
    assert_eq!(mounted.stage(), MountStage::Mounted);
}

#[test]
fn name_field_holds_the_name_and_zeros() {
    assert_eq!(NAME_CAPACITY, 256);
    let field = session("plugin.nro", vec![]).name_field();
    assert_eq!(field.len(), 256);
    assert_eq!(&field[..10], b"plugin.nro");
    assert!(field[10..].iter().all(|b| *b == 0));
}

#[test]
fn name_field_of_an_empty_name_is_all_zeros() {
    assert_eq!(session("", vec![]).name_field(), vec![0u8; 256]);
}

#[test]
fn name_field_takes_a_name_of_its_own_size() {
    let name = "n".repeat(256);
    assert_eq!(session(&name, vec![]).name_field(), vec![b'n'; 256]);
}

#[test]
fn name_field_cuts_a_longer_name() {
    let name = format!("{}{}", "a".repeat(250), "0123456789");
    let field = session(&name, vec![]).name_field();
    assert_eq!(field.len(), 256);
    assert_eq!(&field[..250], "a".repeat(250).as_bytes());
    assert_eq!(&field[250..], b"012345");
}

#[test]
fn name_field_holds_the_utf8_bytes() {
    let field = session("é.nro", vec![]).name_field();
    assert_eq!(&field[..6], &[0xC3, 0xA9, b'.', b'n', b'r', b'o']);
    assert!(field[6..].iter().all(|b| *b == 0));
}

#[test]
fn binding_policy_flags() {
    assert_eq!(BindingPolicy::Now.flag(), 1);
    assert_eq!(BindingPolicy::Lazy.flag(), 2);
}
