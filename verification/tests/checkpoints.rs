use arna::sys::{OsCall, OsReply, Target};
use arna::virtual_mem::Region;
use arna::{Arna, BackingMode, Layout, SliceMemory, OOM};

fn grant(_: OsCall) -> OsReply {
    OsReply { value: 1, last_error: 0 }
}

fn refuse(_: OsCall) -> OsReply {
    OsReply { value: 0, last_error: 487 }
}

fn arena() -> Arna {
    Arna::from(SliceMemory::new(Region { addr: 0x1000, len: 128 }).unwrap())
}

fn take(arna: &mut Arna, size: usize) -> Result<usize, OOM> {
    arna.alloc_raw(Layout::from_size_align(size, 8).unwrap(), Target::Windows, grant)
}

#[test]
fn dropping_a_checkpoint_frees_what_came_after() {
    let mut arna = arena();
    assert_eq!(take(&mut arna, 10), Ok(0x1000));
    let mark = arna.checkpoit();
    assert_eq!(take(&mut arna, 8), Ok(0x1010));
    assert_eq!(take(&mut arna, 8), Ok(0x1018));
    mark.drop(&mut arna);
    assert_eq!(take(&mut arna, 8), Ok(0x1010));
}

#[test]
fn checkpoints_nest() {
    let mut arna = arena();
    assert_eq!(arna.depth(), 0);
    let outer = arna.checkpoit();
    assert_eq!(arna.depth(), 1);
    assert!(outer.is_innermost(&arna));
    assert_eq!(take(&mut arna, 16), Ok(0x1000));
    let inner = outer.checkpoit(&mut arna);
    assert!(inner.is_innermost(&arna));
    assert!(!outer.is_innermost(&arna));
    assert_eq!(take(&mut arna, 16), Ok(0x1010));
    let innermost = arna.checkpoit_unchecked();
    assert!(!inner.is_innermost(&arna));
    assert_eq!(take(&mut arna, 16), Ok(0x1020));
    innermost.drop(&mut arna);
    assert_eq!(take(&mut arna, 16), Ok(0x1020));
    inner.drop(&mut arna);
    assert!(outer.is_innermost(&arna));
    assert_eq!(outer.deref(&arna).backing_mode(), BackingMode::Slice);
    assert_eq!(take(&mut arna, 16), Ok(0x1010));
    outer.drop(&mut arna);
    assert_eq!(take(&mut arna, 16), Ok(0x1000));
    let again = arna.checkpoit();
    again.drop(&mut arna);
    assert_eq!(arna.drop(Target::Windows, grant), Ok(None));
}

#[test]
fn a_checkpoint_undoes_running_out() {
    let mut arna = arena();
    assert_eq!(take(&mut arna, 8), Ok(0x1000));
    let mark = arna.checkpoit();
    assert_eq!(take(&mut arna, 1000), Err(OOM));
    assert_eq!(take(&mut arna, 8), Err(OOM));
    mark.drop(&mut arna);
    assert_eq!(take(&mut arna, 8), Ok(0x1008));
}

#[test]
fn a_checkpoint_undoes_a_failed_commit_and_keeps_what_is_committed() {
    let region = Region { addr: 0x20_0000, len: 0x2_0000 };
    let mut arna = Arna::over_reservation(region);
    let small = Layout::from_size_align(8, 8).unwrap();
    let mark = arna.checkpoit();
    assert_eq!(arna.alloc_raw(small, Target::Windows, refuse), Err(OOM));
    mark.drop(&mut arna);
    let mark = arna.checkpoit();
    assert_eq!(take(&mut arna, 8), Ok(0x20_0000));
    mark.drop(&mut arna);
    // The commit inside of the checkpoint still counts.
    assert_eq!(arna.alloc_raw(small, Target::Windows, refuse), Ok(0x20_0000));
}

#[test]
fn a_checkpoint_knows_its_arena() {
    let mut arna = arena();
    let mut other = Arna::from(SliceMemory::new(Region { addr: 0x2000, len: 128 }).unwrap());
    let mut shorter = Arna::from(SliceMemory::new(Region { addr: 0x1000, len: 64 }).unwrap());
    let mark = arna.checkpoit();
    let _ = other.checkpoit();
    let _ = shorter.checkpoit();
    assert!(mark.is_innermost(&arna));
    assert!(!mark.is_innermost(&other));
    assert!(!mark.is_innermost(&shorter));
}
