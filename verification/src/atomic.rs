//! The atomic file writer, as the sequence of decisions between its file
//! operations.
//!
//! The caller performs one operation at a time and reports how it went;
//! `advance` says what comes next. The content goes to a uniquely named
//! temporary file beside the target, is forced to storage and renamed onto
//! the target. Only where the rename fails is the target overwritten in
//! place: a weaker guarantee, reported as a degraded outcome.

use crate::error::{ConfigError, ErrorKind};
use crate::text::{join, text_view};
use vstd::prelude::*;

verus! {

/// One file operation of a write.
#[derive(Clone, Copy, Debug, PartialEq, Eq, Structural)]
pub enum WriteAction {
    /// Create the parent directory and all that is missing above it.
    CreateDir,
    /// Create the temporary file in the parent directory.
    CreateTemp,
    /// Write the whole content to the temporary file.
    WriteTemp,
    /// Force the temporary file to storage.
    SyncTemp,
    /// Rename the temporary file onto the target.
    Rename,
    /// Fallback: read the temporary file back.
    ReadTemp,
    /// Fallback: create or truncate the target.
    CreateTarget,
    /// Fallback: write what was read to the target.
    WriteTarget,
    /// Fallback: force the target to storage.
    SyncTarget,
    /// Fallback: delete the temporary file.
    RemoveTemp,
    /// Force the parent directory to storage, so that the rename survives a
    /// crash.
    SyncDir,
}

/// A write in progress: the operation to perform now, whether the fallback
/// was entered, and the parent directory as it is shown in messages.
#[derive(Debug, PartialEq)]
pub struct AtomicWrite {
    pub action: WriteAction,
    pub degraded: bool,
    pub parent: String,
}

impl View for AtomicWrite {
    type V = (WriteAction, bool, Seq<char>);

    open spec fn view(&self) -> (WriteAction, bool, Seq<char>) {
        (self.action, self.degraded, self.parent@)
    }
}

/// What follows an operation.
#[derive(Debug, PartialEq)]
pub enum Progress {
    /// Perform the operation of this state next.
    Continue(AtomicWrite),
    /// The write is complete. `degraded` says that the target was
    /// overwritten in place because the rename failed.
    Finished { degraded: bool },
    /// The write is given up.
    Failed(ConfigError),
}

/// The mathematical model of a `Progress`.
pub enum ProgressModel {
    Continue((WriteAction, bool, Seq<char>)),
    Finished { degraded: bool },
    Failed((ErrorKind, Seq<char>)),
}

impl View for Progress {
    type V = ProgressModel;

    open spec fn view(&self) -> ProgressModel {
        match self {
            Progress::Continue(state) => ProgressModel::Continue(state@),
            Progress::Finished { degraded } => ProgressModel::Finished { degraded: *degraded },
            Progress::Failed(e) => ProgressModel::Failed(e@),
        }
    }
}

/// The place of an operation in the order in which a write can reach it.
pub open spec fn rank(action: WriteAction) -> nat {
    match action {
        WriteAction::CreateDir => 0,
        WriteAction::CreateTemp => 1,
        WriteAction::WriteTemp => 2,
        WriteAction::SyncTemp => 3,
        WriteAction::Rename => 4,
        WriteAction::ReadTemp => 5,
        WriteAction::CreateTarget => 6,
        WriteAction::WriteTarget => 7,
        WriteAction::SyncTarget => 8,
        WriteAction::RemoveTemp => 9,
        WriteAction::SyncDir => 10,
    }
}

/// Whether an operation belongs to the fallback after a failed rename.
pub open spec fn on_fallback(action: WriteAction) -> bool {
    5 <= rank(action) <= 9
}

/// Whether an operation writes into the target where it stands, so that an
/// observer could see it half-written.
pub open spec fn overwrites_target(action: WriteAction) -> bool {
    action == WriteAction::CreateTarget || action == WriteAction::WriteTarget
}

/// The operation that follows `action` when it went well; none after the
/// last.
pub open spec fn successor(action: WriteAction) -> Option<WriteAction> {
    match action {
        WriteAction::CreateDir => Some(WriteAction::CreateTemp),
        WriteAction::CreateTemp => Some(WriteAction::WriteTemp),
        WriteAction::WriteTemp => Some(WriteAction::SyncTemp),
        WriteAction::SyncTemp => Some(WriteAction::Rename),
        WriteAction::Rename => Some(WriteAction::SyncDir),
        WriteAction::ReadTemp => Some(WriteAction::CreateTarget),
        WriteAction::CreateTarget => Some(WriteAction::WriteTarget),
        WriteAction::WriteTarget => Some(WriteAction::SyncTarget),
        WriteAction::SyncTarget => Some(WriteAction::RemoveTemp),
        WriteAction::RemoveTemp => Some(WriteAction::SyncDir),
        WriteAction::SyncDir => None,
    }
}

/// The start of the message with which a failure of `action` gives the write
/// up; none for an operation whose failure does not.
pub open spec fn fatal_prefix(action: WriteAction, parent: Seq<char>) -> Option<Seq<char>> {
    match action {
        WriteAction::CreateDir => Some("create dir "@ + parent + " failed: "@),
        WriteAction::CreateTemp => Some("create temp file failed: "@),
        WriteAction::WriteTemp => Some("write temp file failed: "@),
        WriteAction::ReadTemp => Some("fallback read temp failed: "@),
        WriteAction::CreateTarget => Some("fallback create target failed: "@),
        WriteAction::WriteTarget => Some("fallback write target failed: "@),
        _ => None,
    }
}

/// What follows the operation of `state`, given how it went: `failure` is the
/// system's message where it failed.
///
/// A failure of an operation with a `fatal_prefix` gives the write up. A
/// failed rename enters the fallback. Any other failure (forcing to
/// storage, deleting the temporary file) is passed over.
pub open spec fn advanced(state: (WriteAction, bool, Seq<char>), failure: Option<Seq<char>>) -> ProgressModel {
    let (action, degraded, parent) = state;
    match failure {
        Some(detail) if fatal_prefix(action, parent) is Some => ProgressModel::Failed(
            (ErrorKind::Io, fatal_prefix(action, parent).unwrap() + detail),
        ),
        Some(_) if action == WriteAction::Rename => ProgressModel::Continue(
            (WriteAction::ReadTemp, true, parent),
        ),
        _ => match successor(action) {
            Some(next) => ProgressModel::Continue((next, degraded, parent)),
            None => ProgressModel::Finished { degraded },
        },
    }
}

/// The states that a write can be in: the fallback is entered only with the
/// degraded mark, and the mark is not set before the rename.
pub open spec fn reachable(state: (WriteAction, bool, Seq<char>)) -> bool {
    &&& on_fallback(state.0) ==> state.1
    &&& rank(state.0) <= 4 ==> !state.1
}

/// The start of a write into the directory `parent`, or the failure for a
/// target that has no parent directory.
pub open spec fn started(parent: Option<Seq<char>>) -> Result<
    (WriteAction, bool, Seq<char>),
    (ErrorKind, Seq<char>),
> {
    match parent {
        Some(dir) => Ok((WriteAction::CreateDir, false, dir)),
        None => Err((ErrorKind::Io, "invalid path"@)),
    }
}

/// Starts a write. `parent` is the parent directory of the target, as text
/// for messages; a target without one is refused.
pub fn start(parent: Option<&str>) -> (r: Result<AtomicWrite, ConfigError>)
    ensures
        match r {
            Ok(state) => started(text_view(parent)) == Ok::<
                (WriteAction, bool, Seq<char>),
                (ErrorKind, Seq<char>),
            >(state@),
            Err(e) => started(text_view(parent)) == Err::<
                (WriteAction, bool, Seq<char>),
                (ErrorKind, Seq<char>),
            >(e@),
        },
{
    match parent {
        Some(dir) => Ok(
            AtomicWrite { action: WriteAction::CreateDir, degraded: false, parent: dir.to_owned() },
        ),
        None => Err(ConfigError::new(ErrorKind::Io, "invalid path")),
    }
}

/// The failure that gives the write up.
fn give_up(prefix: &str, detail: &str) -> (r: Progress)
    ensures
        r@ == (ProgressModel::Failed((ErrorKind::Io, prefix@ + detail@))),
{
    Progress::Failed(ConfigError::with_detail(ErrorKind::Io, prefix, detail))
}

/// Says what follows the operation of `state`, given how it went.
pub fn advance(state: AtomicWrite, failure: Option<&str>) -> (r: Progress)
    ensures
        r@ == advanced(state@, text_view(failure)),
{
    let AtomicWrite { action, degraded, parent } = state;
    match failure {
        Some(detail) => match action {
            WriteAction::CreateDir => {
                let mut prefix = join("create dir ", parent.as_str());
                prefix.append(" failed: ");
                return give_up(prefix.as_str(), detail);
            },
            WriteAction::CreateTemp => {
                return give_up("create temp file failed: ", detail);
            },
            WriteAction::WriteTemp => {
                return give_up("write temp file failed: ", detail);
            },
            WriteAction::ReadTemp => {
                return give_up("fallback read temp failed: ", detail);
            },
            WriteAction::CreateTarget => {
                return give_up("fallback create target failed: ", detail);
            },
            WriteAction::WriteTarget => {
                return give_up("fallback write target failed: ", detail);
            },
            WriteAction::Rename => {
                return Progress::Continue(
                    AtomicWrite { action: WriteAction::ReadTemp, degraded: true, parent },
                );
            },
            _ => {},
        },
        None => {},
    }
    let next = match action {
        WriteAction::CreateDir => WriteAction::CreateTemp,
        WriteAction::CreateTemp => WriteAction::WriteTemp,
        WriteAction::WriteTemp => WriteAction::SyncTemp,
        WriteAction::SyncTemp => WriteAction::Rename,
        WriteAction::Rename => WriteAction::SyncDir,
        WriteAction::ReadTemp => WriteAction::CreateTarget,
        WriteAction::CreateTarget => WriteAction::WriteTarget,
        WriteAction::WriteTarget => WriteAction::SyncTarget,
        WriteAction::SyncTarget => WriteAction::RemoveTemp,
        WriteAction::RemoveTemp => WriteAction::SyncDir,
        WriteAction::SyncDir => {
            return Progress::Finished { degraded };
        },
    };
    Progress::Continue(AtomicWrite { action: next, degraded, parent })
}

/// Every step moves forward in the order of operations, so a write ends
/// after at most eleven of them.
pub proof fn lemma_advance_moves_forward(
    state: (WriteAction, bool, Seq<char>),
    failure: Option<Seq<char>>,
)
    ensures
        advanced(state, failure) matches ProgressModel::Continue(next) ==> rank(next.0) > rank(
            state.0,
        ) && next.2 == state.2,
{
}

/// A write starts in a reachable state and stays in one.
pub proof fn lemma_reachable_is_kept(
    state: (WriteAction, bool, Seq<char>),
    failure: Option<Seq<char>>,
)
    requires
        reachable(state),
    ensures
        advanced(state, failure) matches ProgressModel::Continue(next) ==> reachable(next),
        forall|parent: Seq<char>| reachable((WriteAction::CreateDir, false, parent)),
{
}

/// No partial write is exposed unless the rename failed: as long as the write
/// is not degraded, no operation overwrites the target where it stands, and
/// the fallback is entered only by a failed rename.
pub proof fn lemma_target_replaced_by_rename_only(
    state: (WriteAction, bool, Seq<char>),
    failure: Option<Seq<char>>,
)
    requires
        reachable(state),
    ensures
        !state.1 ==> !overwrites_target(state.0),
        advanced(state, failure) matches ProgressModel::Continue(next) ==> (next.1 && !state.1
            <==> state.0 == WriteAction::Rename && failure is Some),
        advanced(state, failure) matches ProgressModel::Finished { degraded } ==> degraded
            == state.1,
{
}

/// The rename is reached only over a temporary file that was created and
/// written in full: each of these operations follows the success of the one
/// before it, and the forcing to storage was at least attempted.
pub proof fn lemma_rename_follows_complete_write(
    state: (WriteAction, bool, Seq<char>),
    failure: Option<Seq<char>>,
)
    ensures
        advanced(state, failure) matches ProgressModel::Continue(next) ==> {
            &&& next.0 == WriteAction::Rename ==> state.0 == WriteAction::SyncTemp
            &&& next.0 == WriteAction::SyncTemp ==> state.0 == WriteAction::WriteTemp && failure
                is None
            &&& next.0 == WriteAction::WriteTemp ==> state.0 == WriteAction::CreateTemp && failure
                is None
            &&& next.0 == WriteAction::CreateTemp ==> state.0 == WriteAction::CreateDir && failure
                is None
        },
        advanced(state, failure) matches ProgressModel::Failed(e) ==> e.0 == ErrorKind::Io
            && failure is Some && state.0 != WriteAction::Rename,
{
}

/// Whether `c` is a digit of lower-case hexadecimal.
pub open spec fn is_lower_hex(c: char) -> bool {
    ('0' <= c && c <= '9') || ('a' <= c && c <= 'f')
}

/// The shape of a unique token: thirty-six characters, hyphens at the four
/// group boundaries and lower-case hexadecimal digits elsewhere.
pub open spec fn is_token(s: Seq<char>) -> bool {
    &&& s.len() == 36
    &&& forall|i: int|
        0 <= i < 36 ==> if i == 8 || i == 13 || i == 18 || i == 23 {
            s[i] == '-'
        } else {
            is_lower_hex(#[trigger] s[i])
        }
}

/// `uuid::Uuid::new_v4`, written by its `Display`: a fresh random identifier
/// in hyphenated lower-case form. Which one it is differs from call to call;
/// only its shape is promised. Where the system has no random bytes to give,
/// the call does not return, as where memory runs out.
#[verifier::external_body]
fn fresh_token() -> (r: String)
    ensures
        is_token(r@),
{
    uuid::Uuid::new_v4().to_string()
}

/// The name of the temporary file for `token`: a hidden file with the
/// extension `tmp`.
pub open spec fn temp_name_of(token: Seq<char>) -> Seq<char> {
    "."@ + token + ".tmp"@
}

/// The name of the temporary file for `token`.
pub fn temp_file_name(token: &str) -> (r: String)
    ensures
        r@ == temp_name_of(token@),
{
    crate::text::join3(".", token, ".tmp")
}

/// A name for a temporary file that no concurrent writer will pick: it is
/// made of a fresh unique token.
pub fn fresh_temp_name() -> (r: String)
    ensures
        exists|token: Seq<char>| is_token(token) && r@ == #[trigger] temp_name_of(token),
{
    let token = fresh_token();
    temp_file_name(token.as_str())
}

/// The name of a temporary file is a plain file name: it holds no path
/// separator, so the file lies in the directory it is joined to, beside the
/// target.
pub proof fn lemma_temp_name_is_plain(token: Seq<char>)
    requires
        is_token(token),
    ensures
        temp_name_of(token).len() == 41,
        temp_name_of(token)[0] == '.',
        forall|i: int|
            0 <= i < 41 ==> (#[trigger] temp_name_of(token)[i]) != '/' && temp_name_of(token)[i]
                != '\\',
{
    reveal_strlit(".");
    reveal_strlit(".tmp");
    let name = temp_name_of(token);
    assert(name.len() == 41);
    assert forall|i: int| 0 <= i < 41 implies (#[trigger] name[i]) != '/' && name[i] != '\\' by {
        if 1 <= i < 37 {
            assert(name[i] == token[i - 1]);
            if !(i - 1 == 8 || i - 1 == 13 || i - 1 == 18 || i - 1 == 23) {
                assert(is_lower_hex(token[i - 1]));
            }
        }
    }
}

} // verus!
