//! The file that shows that the root can be written.
use crate::io_error::{IoErrorKind, IoFailure};
use crate::rooted_fs::ancestors::MakeResult;
use crate::rooted_fs::identity::{ExistingReplacementTarget, FileType};
use crate::rooted_fs::stage;
use crate::steps;
use crate::steps::{Check, Step};
use crate::text::bytes_eq;
use vstd::prelude::*;
use vstd::string::*;
use vstd::utf8::*;

verus! {

/// What is written to the file, and read back.
pub const READINESS_PAYLOAD: &'static str = "dufs-readiness-v2";

/// What opening the file looks at or does next.
#[derive(Clone, Copy, Debug, Eq, PartialEq, Structural)]
pub enum ReadinessProbe {
    Create,
    OpenExisting,
    StatOpened,
    StatRoot,
    StatNamed,
    /// Flush the file, and then the root.
    Sync,
}

/// What has been seen of the file.
#[derive(Clone, Copy)]
pub struct ReadinessSeen {
    pub created: Option<MakeResult>,
    pub existing: Option<Result<(), IoFailure>>,
    pub opened: Option<Result<ExistingReplacementTarget, IoFailure>>,
    pub root: Option<Result<ExistingReplacementTarget, IoFailure>>,
    pub named: Option<Result<ExistingReplacementTarget, IoFailure>>,
    pub synced: Option<Result<(), IoFailure>>,
}

impl ReadinessSeen {
    pub fn new() -> (seen: ReadinessSeen)
        ensures
            seen == (ReadinessSeen {
                created: None,
                existing: None,
                opened: None,
                root: None,
                named: None,
                synced: None,
            }),
    {
        ReadinessSeen {
            created: None,
            existing: None,
            opened: None,
            root: None,
            named: None,
            synced: None,
        }
    }
}

pub type ReadinessStep = Step<ReadinessProbe, Result<(), IoFailure>>;

pub type ReadinessCheck = Check<ReadinessProbe, Result<(), IoFailure>>;

/// The file is private, on the filesystem of the root, and what its name leads to.
pub open spec fn is_private_probe(
    opened: ExistingReplacementTarget,
    root: ExistingReplacementTarget,
    named: ExistingReplacementTarget,
    euid: u32,
) -> bool {
    &&& stage::is_private_file(opened, euid)
    &&& opened.device == root.device
    &&& named.device == opened.device
    &&& named.inode == opened.inode
    &&& named.file_type == FileType::RegularFile
}

/// The file has been made, or was there.
pub open spec fn file_is_there(seen: ReadinessSeen) -> ReadinessCheck {
    match seen.created {
        None => Check::Ask(ReadinessProbe::Create),
        Some(MakeResult::Made) => Check::Pass,
        Some(MakeResult::Exists) => steps::succeeded(seen.existing, ReadinessProbe::OpenExisting),
        Some(MakeResult::Failed(failure)) => Check::Stop(Err(failure)),
    }
}

/// The checks of the file.
pub open spec fn readiness_checks(seen: ReadinessSeen, euid: u32) -> ReadinessCheck {
    file_is_there(seen).followed_by(
        steps::succeeded(seen.opened, ReadinessProbe::StatOpened),
    ).followed_by(steps::succeeded(seen.root, ReadinessProbe::StatRoot)).followed_by(
        steps::succeeded(seen.named, ReadinessProbe::StatNamed),
    ).followed_by(
        steps::stop_if(
            !is_private_probe(
                seen.opened->0->Ok_0,
                seen.root->0->Ok_0,
                seen.named->0->Ok_0,
                euid,
            ),
            Err(stage::invalid_data()),
        ),
    ).followed_by(
        if seen.created == Some(MakeResult::Made) {
            steps::succeeded(seen.synced, ReadinessProbe::Sync)
        } else {
            Check::Pass
        },
    )
}

/// Decides the opening of the file.
pub fn open_readiness_probe(seen: &ReadinessSeen, euid: u32) -> (step: ReadinessStep)
    ensures
        step == readiness_checks(*seen, euid).otherwise(Ok(())),
{
    let made = match seen.created {
        None => return Step::Ask(ReadinessProbe::Create),
        Some(MakeResult::Failed(failure)) => return Step::Done(Err(failure)),
        Some(MakeResult::Made) => true,
        Some(MakeResult::Exists) => false,
    };
    if !made {
        if let Err(step) = steps::must_succeed(&seen.existing, ReadinessProbe::OpenExisting) {
            return step;
        }
    }
    let opened = match steps::must_succeed(&seen.opened, ReadinessProbe::StatOpened) {
        Ok(opened) => opened,
        Err(step) => return step,
    };
    let root = match steps::must_succeed(&seen.root, ReadinessProbe::StatRoot) {
        Ok(root) => root,
        Err(step) => return step,
    };
    let named = match steps::must_succeed(&seen.named, ReadinessProbe::StatNamed) {
        Ok(named) => named,
        Err(step) => return step,
    };
    if opened.file_type != FileType::RegularFile || opened.links != 1 || opened.uid != euid
        || opened.device != root.device || opened.mode & 0o7777 != 0o600 || named.device
        != opened.device || named.inode != opened.inode || named.file_type
        != FileType::RegularFile {
        return Step::Done(Err(IoFailure::of_kind(IoErrorKind::InvalidData)));
    }
    if made {
        if let Err(step) = steps::must_succeed(&seen.synced, ReadinessProbe::Sync) {
            return step;
        }
    }
    Step::Done(Ok(()))
}

/// What a probe of the root looks at or does next.
#[derive(Clone, Copy, Debug, Eq, PartialEq, Structural)]
pub enum WritableProbe {
    StatHeld,
    StatNamed,
    Write,
    Sync,
    Read,
}

/// What a probe of the root has seen.
pub struct WritableSeen {
    pub held: Option<Result<ExistingReplacementTarget, IoFailure>>,
    pub named: Option<Result<ExistingReplacementTarget, IoFailure>>,
    /// How many bytes were written.
    pub written: Option<Result<usize, IoFailure>>,
    pub synced: Option<Result<(), IoFailure>>,
    /// Whether the read succeeded.
    pub read: Option<Result<(), IoFailure>>,
    /// What was read.
    pub content: Vec<u8>,
}

impl WritableSeen {
    pub fn new() -> (seen: WritableSeen)
        ensures
            seen.held is None,
            seen.named is None,
            seen.written is None,
            seen.synced is None,
            seen.read is None,
            seen.content@ == Seq::<u8>::empty(),
    {
        WritableSeen {
            held: None,
            named: None,
            written: None,
            synced: None,
            read: None,
            content: Vec::new(),
        }
    }
}

pub type WritableStep = Step<WritableProbe, Result<(), IoFailure>>;

pub type WritableCheck = Check<WritableProbe, Result<(), IoFailure>>;

/// The file that is held still has its name.
pub open spec fn keeps_its_name(
    held: ExistingReplacementTarget,
    named: ExistingReplacementTarget,
) -> bool {
    &&& named.device == held.device
    &&& named.inode == held.inode
    &&& named.file_type == FileType::RegularFile
}

/// The checks of a probe of the root.
pub open spec fn writable_checks(seen: WritableSeen) -> WritableCheck {
    steps::succeeded(seen.held, WritableProbe::StatHeld).followed_by(
        steps::succeeded(seen.named, WritableProbe::StatNamed),
    ).followed_by(
        steps::stop_if(
            !keeps_its_name(seen.held->0->Ok_0, seen.named->0->Ok_0),
            Err(stage::invalid_data()),
        ),
    ).followed_by(steps::succeeded(seen.written, WritableProbe::Write)).followed_by(
        steps::stop_if(
            seen.written->0->Ok_0 != encode_utf8(READINESS_PAYLOAD@).len(),
            Err(IoFailure { kind: IoErrorKind::WriteZero, number: None }),
        ),
    ).followed_by(steps::succeeded(seen.synced, WritableProbe::Sync)).followed_by(
        steps::succeeded(seen.read, WritableProbe::Read),
    ).followed_by(
        steps::stop_if(
            seen.content@ != encode_utf8(READINESS_PAYLOAD@),
            Err(stage::invalid_data()),
        ),
    )
}

/// Decides a probe of the root: what is written, flushed and read back through the
/// file.
pub fn probe_writable(seen: &WritableSeen) -> (step: WritableStep)
    ensures
        step == writable_checks(*seen).otherwise(Ok(())),
{
    let held = match steps::must_succeed(&seen.held, WritableProbe::StatHeld) {
        Ok(held) => held,
        Err(step) => return step,
    };
    let named = match steps::must_succeed(&seen.named, WritableProbe::StatNamed) {
        Ok(named) => named,
        Err(step) => return step,
    };
    if named.device != held.device || named.inode != held.inode || named.file_type
        != FileType::RegularFile {
        return Step::Done(Err(IoFailure::of_kind(IoErrorKind::InvalidData)));
    }
    let written: usize = match steps::must_succeed(&seen.written, WritableProbe::Write) {
        Ok(written) => written,
        Err(step) => return step,
    };
    let payload = READINESS_PAYLOAD.as_bytes();
    if written != payload.len() {
        return Step::Done(Err(IoFailure::of_kind(IoErrorKind::WriteZero)));
    }
    if let Err(step) = steps::must_succeed(&seen.synced, WritableProbe::Sync) {
        return step;
    }
    if let Err(step) = steps::must_succeed(&seen.read, WritableProbe::Read) {
        return step;
    }
    if !bytes_eq(seen.content.as_slice(), payload) {
        return Step::Done(Err(IoFailure::of_kind(IoErrorKind::InvalidData)));
    }
    Step::Done(Ok(()))
}

/// The root is found writable only where what was written came back, through a file
/// that still has its name.
pub proof fn law_writable_roots_keep_what_is_written(seen: WritableSeen)
    requires
        writable_checks(seen) is Pass,
    ensures
        seen.content@ == encode_utf8(READINESS_PAYLOAD@),
        seen.synced matches Some(Ok(_)),
        seen.held matches Some(Ok(held)) && seen.named->0->Ok_0.inode == held.inode,
{
}

/// A regular file of the server's own, which nobody else may open and which has one name
/// on the filesystem of the root, opens; where it is new it is flushed first.
pub proof fn law_private_probes_open(
    seen: ReadinessSeen,
    euid: u32,
    opened: ExistingReplacementTarget,
    root: ExistingReplacementTarget,
    named: ExistingReplacementTarget,
)
    requires
        seen.created == Some(MakeResult::Made) || (seen.created == Some(MakeResult::Exists)
            && seen.existing == Some(Ok::<(), IoFailure>(()))),
        seen.opened == Some(Ok::<ExistingReplacementTarget, IoFailure>(opened)),
        seen.root == Some(Ok::<ExistingReplacementTarget, IoFailure>(root)),
        seen.named == Some(Ok::<ExistingReplacementTarget, IoFailure>(named)),
        opened.file_type == FileType::RegularFile,
        opened.links == 1,
        opened.uid == euid,
        opened.mode & 0o7777 == 0o600,
        opened.device == root.device,
        named.device == opened.device,
        named.inode == opened.inode,
        named.file_type == FileType::RegularFile,
    ensures
        seen.created == Some(MakeResult::Exists) || (seen.synced matches Some(Ok(_)))
            ==> readiness_checks(seen, euid).otherwise(Ok(())) == ReadinessStep::Done(Ok(())),
        seen.created == Some(MakeResult::Made) && seen.synced is None ==> readiness_checks(
            seen,
            euid,
        ) == ReadinessCheck::Ask(ReadinessProbe::Sync),
{
}

/// A file that does not open met the failure that is told, or is not private, not on the
/// filesystem of the root or not what its name leads to.
pub proof fn law_unopened_probes_have_their_cause(
    seen: ReadinessSeen,
    euid: u32,
    failure: IoFailure,
)
    requires
        readiness_checks(seen, euid) == ReadinessCheck::Stop(Err(failure)),
    ensures
        ({
            ||| seen.created == Some(MakeResult::Failed(failure))
            ||| seen.existing == Some(Err::<(), IoFailure>(failure))
            ||| seen.opened == Some(Err::<ExistingReplacementTarget, IoFailure>(failure))
            ||| seen.root == Some(Err::<ExistingReplacementTarget, IoFailure>(failure))
            ||| seen.named == Some(Err::<ExistingReplacementTarget, IoFailure>(failure))
            ||| seen.synced == Some(Err::<(), IoFailure>(failure))
            ||| failure.kind == IoErrorKind::InvalidData && (seen.opened matches Some(Ok(opened))
                && (seen.root matches Some(Ok(root)) && (seen.named matches Some(Ok(named)) && (
            opened.file_type != FileType::RegularFile || opened.links != 1 || opened.uid != euid
                || opened.mode & 0o7777 != 0o600 || opened.device != root.device || named.device
                != opened.device || named.inode != opened.inode || named.file_type
                != FileType::RegularFile))))
        }),
{
}

/// Opening the file looks at nothing twice.
pub proof fn law_probes_are_opened_once(seen: ReadinessSeen, euid: u32, probe: ReadinessProbe)
    requires
        readiness_checks(seen, euid) == ReadinessCheck::Ask(probe),
    ensures
        match probe {
            ReadinessProbe::Create => seen.created is None,
            ReadinessProbe::OpenExisting => seen.existing is None && seen.created == Some(
                MakeResult::Exists,
            ),
            ReadinessProbe::StatOpened => seen.opened is None,
            ReadinessProbe::StatRoot => seen.root is None,
            ReadinessProbe::StatNamed => seen.named is None,
            ReadinessProbe::Sync => seen.synced is None,
        },
{
}

/// A root through which the whole text is written, flushed and read back is writable.
pub proof fn law_roots_that_give_back_are_writable(
    seen: WritableSeen,
    held: ExistingReplacementTarget,
    named: ExistingReplacementTarget,
)
    requires
        seen.held == Some(Ok::<ExistingReplacementTarget, IoFailure>(held)),
        seen.named == Some(Ok::<ExistingReplacementTarget, IoFailure>(named)),
        named.device == held.device,
        named.inode == held.inode,
        named.file_type == FileType::RegularFile,
        seen.written matches Some(Ok(written)) && written == encode_utf8(
            "dufs-readiness-v2"@,
        ).len(),
        seen.synced == Some(Ok::<(), IoFailure>(())),
        seen.read == Some(Ok::<(), IoFailure>(())),
        seen.content@ == encode_utf8("dufs-readiness-v2"@),
    ensures
        writable_checks(seen).otherwise(Ok(())) == WritableStep::Done(Ok(())),
{
}

/// A root that is not writable met the failure that is told, lost the file's name, took
/// only part of the text or gave another one back.
pub proof fn law_unwritable_roots_have_their_cause(seen: WritableSeen, failure: IoFailure)
    requires
        writable_checks(seen) == WritableCheck::Stop(Err(failure)),
    ensures
        ({
            ||| seen.held == Some(Err::<ExistingReplacementTarget, IoFailure>(failure))
            ||| seen.named == Some(Err::<ExistingReplacementTarget, IoFailure>(failure))
            ||| seen.written == Some(Err::<usize, IoFailure>(failure))
            ||| seen.synced == Some(Err::<(), IoFailure>(failure))
            ||| seen.read == Some(Err::<(), IoFailure>(failure))
            ||| failure.kind == IoErrorKind::WriteZero && (seen.written matches Some(Ok(written))
                && written != encode_utf8("dufs-readiness-v2"@).len())
            ||| failure.kind == IoErrorKind::InvalidData && (seen.held matches Some(Ok(held)) && (
            seen.named matches Some(Ok(named)) && (named.device != held.device || named.inode
                != held.inode || named.file_type != FileType::RegularFile)))
            ||| failure.kind == IoErrorKind::InvalidData && seen.read is Some && seen.content@
                != encode_utf8("dufs-readiness-v2"@)
        }),
{
}

/// A probe of the root does nothing twice, writes before it flushes and flushes before
/// it reads.
pub proof fn law_roots_are_probed_in_order(seen: WritableSeen, probe: WritableProbe)
    requires
        writable_checks(seen) == WritableCheck::Ask(probe),
    ensures
        match probe {
            WritableProbe::StatHeld => seen.held is None,
            WritableProbe::StatNamed => seen.named is None,
            WritableProbe::Write => seen.written is None,
            WritableProbe::Sync => seen.synced is None && (seen.written matches Some(Ok(_))),
            WritableProbe::Read => seen.read is None && (seen.synced matches Some(Ok(_))),
        },
{
}

} // verus!
