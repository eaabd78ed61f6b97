//! Committing a staged note to its final place without ever replacing a file
//! that is already there.
//!
//! The file system is the arbiter: every copy is an exclusive create, made by
//! the caller. This module holds the decisions around those copies: which
//! destination to try, what to do when it is taken, and which error to report
//! once the staged note has been preserved.

use vstd::prelude::*;

use vstd::utf8::encode_utf8;

use sha2::Digest;

use crate::config::{join_path, joined_path};
pub use crate::failure::{IoFailure, IoFailureKind};
use crate::text::{
    capped, chars_of, decimal_text, lemma_decimal_text_reads_back, number_of_text,
    parse_number_within,
    push_decimal,
};

verus! {

/// Why an exclusive copy to a destination did not happen.
#[derive(Clone, Debug, PartialEq, Eq)]
pub enum CopyToDestinationError {
    /// The destination could not be created.
    FileSetupError(IoFailure),
    /// The destination was created but the content could not be written.
    CopyError(IoFailure),
}

impl CopyToDestinationError {
    /// Whether the copy was refused because the destination already exists.
    pub open spec fn destination_exists(self) -> bool {
        self matches CopyToDestinationError::FileSetupError(failure)
            && failure.kind == IoFailureKind::AlreadyExists
    }

    /// The underlying failure, whichever step it came from.
    pub open spec fn failure(self) -> IoFailure {
        match self {
            CopyToDestinationError::FileSetupError(failure) => failure,
            CopyToDestinationError::CopyError(failure) => failure,
        }
    }

    /// Whether the copy was refused because the destination already exists.
    pub fn is_destination_exists(&self) -> (exists: bool)
        ensures
            exists == self.destination_exists(),
    {
        match self {
            CopyToDestinationError::FileSetupError(failure) => match failure.kind {
                IoFailureKind::AlreadyExists => true,
                _ => false,
            },
            CopyToDestinationError::CopyError(_) => false,
        }
    }

    /// Gives up the distinction between the two steps.
    pub fn into_failure(self) -> (failure: IoFailure)
        ensures
            failure == self.failure(),
    {
        match self {
            CopyToDestinationError::FileSetupError(failure) => failure,
            CopyToDestinationError::CopyError(failure) => failure,
        }
    }
}

/// The digits that `name` carries where it has the numbered form as a
/// whole: the stem, a hyphen, one character or more, a dot and the
/// extension, with nothing before or behind. What stands between hyphen and
/// dot comes back, whether it is digits or not.
pub open spec fn numbered_part(stem: Seq<char>, extension: Seq<char>, name: Seq<char>) -> Option<
    Seq<char>,
> {
    let start = stem.len() + 1;
    let end = name.len() - extension.len() - 1;
    if start < end && name.subrange(0, stem.len() as int) == stem && name[stem.len() as int] == '-'
        && name[end] == '.' && name.subrange(end + 1, name.len() as int) == extension {
        Some(name.subrange(start as int, end))
    } else {
        None
    }
}

/// The number that `name` carries, if the name is `stem-<number>.extension`
/// as a whole and the number is written in ASCII digits, however many.
pub open spec fn suffix_of(stem: Seq<char>, extension: Seq<char>, name: Seq<char>) -> Option<nat> {
    match numbered_part(stem, extension, name) {
        Some(digits) => number_of_text(digits),
        None => None,
    }
}

/// The largest number that any of `names` carries; 0 where none carries one.
pub open spec fn largest_suffix(
    stem: Seq<char>,
    extension: Seq<char>,
    names: Seq<Seq<char>>,
) -> nat
    decreases names.len(),
{
    if names.len() == 0 {
        0
    } else {
        let before = largest_suffix(stem, extension, names.drop_last());
        match suffix_of(stem, extension, names.last()) {
            Some(number) if number > before => number,
            _ => before,
        }
    }
}

/// The file name `stem-<number>.extension`.
pub open spec fn numbered_basename(stem: Seq<char>, number: nat, extension: Seq<char>) -> Seq<
    char,
> {
    stem + seq!['-'] + decimal_text(number) + seq!['.'] + extension
}

/// The file name to try after a collision: numbered one above the largest
/// number among `names`, so with 1 where no name is numbered.
pub open spec fn next_basename(
    stem: Seq<char>,
    extension: Seq<char>,
    names: Seq<Seq<char>>,
) -> Seq<char> {
    numbered_basename(stem, largest_suffix(stem, extension, names) + 1, extension)
}

/// Whether the number after the largest among `names` fits 64 bits, so that
/// a name can be made with it.
pub open spec fn has_next_number(
    stem: Seq<char>,
    extension: Seq<char>,
    names: Seq<Seq<char>>,
) -> bool {
    largest_suffix(stem, extension, names) + 1 <= u64::MAX
}

/// Whether `part` stands in `chars` from `start` on.
fn stands_at(chars: &Vec<char>, start: usize, part: &Vec<char>) -> (found: bool)
    ensures
        found == (start + part.len() <= chars.len() && chars@.subrange(
            start as int,
            start + part.len(),
        ) == part@),
{
    if start > chars.len() || part.len() > chars.len() - start {
        return false;
    }
    let ghost within = chars@.subrange(start as int, start + part.len());
    let mut index: usize = 0;
    while index < part.len()
        invariant
            start + part.len() <= chars.len(),
            index <= part.len(),
            within == chars@.subrange(start as int, start + part.len()),
            within.take(index as int) == part@.take(index as int),
        decreases part.len() - index,
    {
        if chars[start + index] != part[index] {
            assert(within[index as int] != part@[index as int]);
            return false;
        }
        proof {
            assert(within[index as int] == part@[index as int]);
            assert(within.take(index + 1) =~= within.take(index as int).push(
                within[index as int],
            ));
            assert(part@.take(index + 1) =~= part@.take(index as int).push(part@[index as int]));
        }
        index = index + 1;
    }
    proof {
        assert(within.take(part.len() as int) =~= within);
        assert(part@.take(part.len() as int) =~= part@);
    }
    true
}

/// The number that the file name `name` carries behind `stem`; the largest
/// 64-bit number where it carries a larger one.
pub fn suffix_number(stem: &Vec<char>, extension: &Vec<char>, name: &str) -> (number: Option<u64>)
    ensures
        number == match suffix_of(stem@, extension@, name@) {
            Some(value) => Some(capped(value)),
            None => None,
        },
{
    let chars = chars_of(name);
    if chars.len() < stem.len() || chars.len() - stem.len() < extension.len() || chars.len()
        - stem.len() - extension.len() < 3 {
        return None;
    }
    let start = stem.len() + 1;
    let end = chars.len() - extension.len() - 1;
    if !stands_at(&chars, 0, stem) || chars[stem.len()] != '-' || chars[end] != '.' || !stands_at(
        &chars,
        end + 1,
        extension,
    ) {
        return None;
    }
    parse_number_within(&chars, start, end)
}

/// One above the largest number that any of `names` carries behind `stem`,
/// where that fits 64 bits.
pub fn next_suffix(names: &Vec<String>, stem: &str, extension: &str) -> (number: Option<u64>)
    ensures
        number == if has_next_number(stem@, extension@, names.deep_view()) {
            Some((largest_suffix(stem@, extension@, names.deep_view()) + 1) as u64)
        } else {
            None
        },
{
    let stem = chars_of(stem);
    let extension = chars_of(extension);
    let mut largest: u64 = 0;
    let mut index: usize = 0;
    while index < names.len()
        invariant
            index <= names.len(),
            largest == capped(
                largest_suffix(stem@, extension@, names.deep_view().take(index as int)),
            ),
        decreases names.len() - index,
    {
        proof {
            let seen = names.deep_view().take(index as int + 1);
            assert(seen.drop_last() =~= names.deep_view().take(index as int));
            assert(seen.last() == names[index as int]@);
        }
        match suffix_number(&stem, &extension, names[index].as_str()) {
            Some(number) => {
                if number > largest {
                    largest = number;
                }
            },
            None => {},
        }
        index = index + 1;
    }
    proof {
        assert(names.deep_view().take(names.len() as int) =~= names.deep_view());
    }
    if largest == 0xffff_ffff_ffff_ffff {
        None
    } else {
        Some(largest + 1)
    }
}

/// Writes the file name `stem-<number>.extension`.
pub fn numbered_name(stem: &str, number: u64, extension: &str) -> (basename: String)
    ensures
        basename@ == numbered_basename(stem@, number as nat, extension@),
{
    let mut basename = String::from_str(stem);
    basename.push('-');
    push_decimal(&mut basename, number);
    basename.push('.');
    basename.append(extension);
    basename
}

/// Why no new file name could be picked.
#[derive(Clone, Debug, PartialEq, Eq)]
pub enum FindNextDestinationBasenameError {
    /// The directory could not be listed.
    ReadDirError(IoFailure),
    /// A name of the directory carries the largest number that fits 64 bits,
    /// or a larger one.
    NumbersExhausted,
}

/// Picks the next unused numbered file name for a note, given the names that
/// the directory holds now: the name numbered one above the largest number
/// of the listing, which is none of the listing's names. Where that number
/// does not fit 64 bits, no name is picked.
pub fn find_next_destination_basename(names: &Vec<String>, stem: &str, extension: &str) -> (basename:
    Result<String, FindNextDestinationBasenameError>)
    ensures
        match basename {
            Ok(name) => {
                &&& has_next_number(stem@, extension@, names.deep_view())
                &&& name@ == next_basename(stem@, extension@, names.deep_view())
                &&& forall|index: int|
                    0 <= index < names.len() ==> (#[trigger] names[index])@ != name@
            },
            Err(error) => {
                &&& !has_next_number(stem@, extension@, names.deep_view())
                &&& error == FindNextDestinationBasenameError::NumbersExhausted
            },
        },
{
    match next_suffix(names, stem, extension) {
        Some(number) => {
            let name = numbered_name(stem, number, extension);
            proof {
                assert forall|index: int| 0 <= index < names.len() implies (
                #[trigger] names[index])@ != name@ by {
                    lemma_next_name_is_unused(stem@, extension@, names.deep_view(), index);
                }
            }
            Ok(name)
        },
        None => Err(FindNextDestinationBasenameError::NumbersExhausted),
    }
}

/// No name of a listing carries a number above the listing's largest.
pub proof fn lemma_largest_suffix_bounds(
    stem: Seq<char>,
    extension: Seq<char>,
    names: Seq<Seq<char>>,
    index: int,
)
    requires
        0 <= index < names.len(),
    ensures
        suffix_of(stem, extension, names[index]) matches Some(number) ==> number
            <= largest_suffix(stem, extension, names),
    decreases names.len(),
{
    if index < names.len() - 1 {
        lemma_largest_suffix_bounds(stem, extension, names.drop_last(), index);
    }
}

/// The name with a number is counted with that number, whatever its size.
pub proof fn lemma_numbered_name_is_counted(stem: Seq<char>, extension: Seq<char>, number: nat)
    ensures
        suffix_of(stem, extension, numbered_basename(stem, number, extension)) == Some(number),
{
    lemma_decimal_text_reads_back(number);
    let digits = decimal_text(number);
    let name = numbered_basename(stem, number, extension);
    let end = name.len() - extension.len() - 1;
    assert(name.len() == stem.len() + 1 + digits.len() + 1 + extension.len());
    assert(name.subrange(0, stem.len() as int) =~= stem);
    assert(name[stem.len() as int] == '-');
    assert(name[end] == '.');
    assert(name.subrange(end + 1, name.len() as int) =~= extension);
    assert(name.subrange(stem.len() as int + 1, end) =~= digits);
}

/// The name picked after a collision is none of the names of the listing.
pub proof fn lemma_next_name_is_unused(
    stem: Seq<char>,
    extension: Seq<char>,
    names: Seq<Seq<char>>,
    index: int,
)
    requires
        0 <= index < names.len(),
    ensures
        names[index] != next_basename(stem, extension, names),
{
    lemma_largest_suffix_bounds(stem, extension, names, index);
    lemma_numbered_name_is_counted(
        stem,
        extension,
        largest_suffix(stem, extension, names) + 1,
    );
}

/// A listing without a numbered name gives the number 1.
pub proof fn lemma_first_collision_gets_one(
    stem: Seq<char>,
    extension: Seq<char>,
    names: Seq<Seq<char>>,
)
    requires
        forall|index: int|
            0 <= index < names.len() ==> suffix_of(stem, extension, #[trigger] names[index])
                is None,
    ensures
        largest_suffix(stem, extension, names) == 0,
        next_basename(stem, extension, names) == numbered_basename(stem, 1, extension),
    decreases names.len(),
{
    if names.len() > 0 {
        assert(suffix_of(stem, extension, names[names.len() - 1]) is None);
        assert forall|index: int| 0 <= index < names.drop_last().len() implies suffix_of(
            stem,
            extension,
            #[trigger] names.drop_last()[index],
        ) is None by {
            assert(names.drop_last()[index] == names[index]);
        }
        lemma_first_collision_gets_one(stem, extension, names.drop_last());
    }
}

/// The SHA-256 digest of `bytes`.
pub uninterp spec fn sha256_digest(bytes: Seq<u8>) -> Seq<u8>;

/// Calls `sha2::Sha256::digest`, which hashes the whole slice in one go.
/// Claimed: the digest depends on the bytes alone.
#[verifier::external_body]
fn sha256(bytes: &[u8]) -> (digest: Vec<u8>)
    ensures
        digest@ == sha256_digest(bytes@),
{
    sha2::Sha256::digest(bytes).to_vec()
}

/// The SHA-256 digest of `bytes`.
pub fn digest(bytes: &[u8]) -> (digest: Vec<u8>)
    ensures
        digest@ == sha256_digest(bytes@),
{
    sha256(bytes)
}

/// Whether two byte vectors hold the same bytes.
fn same_bytes(left: &Vec<u8>, right: &Vec<u8>) -> (same: bool)
    ensures
        same == (left@ == right@),
{
    if left.len() != right.len() {
        return false;
    }
    let mut index: usize = 0;
    while index < left.len()
        invariant
            left.len() == right.len(),
            index <= left.len(),
            left@.take(index as int) == right@.take(index as int),
        decreases left.len() - index,
    {
        if left[index] != right[index] {
            return false;
        }
        proof {
            assert(left@.take(index as int + 1) =~= left@.take(index as int).push(
                left@[index as int],
            ));
            assert(right@.take(index as int + 1) =~= right@.take(index as int).push(
                right@[index as int],
            ));
        }
        index = index + 1;
    }
    proof {
        assert(left@.take(left.len() as int) =~= left@);
        assert(right@.take(right.len() as int) =~= right@);
    }
    true
}

/// Whether the staged bytes count as changed against the baseline text: their
/// digests differ.
pub open spec fn differs(staged: Seq<u8>, against: Seq<char>) -> bool {
    sha256_digest(staged) != sha256_digest(encode_utf8(against))
}

/// Tells whether a staged note differs from the text it started from, by
/// digest.
pub fn is_different(staged: &[u8], against: &str) -> (different: bool)
    ensures
        different == differs(staged@, against@),
{
    let against_hash = digest(against.as_bytes());
    let file_hash = digest(staged);
    !same_bytes(&against_hash, &file_hash)
}

/// The strategy that stores a note at one exact path and never looks for
/// another name.
#[derive(Clone, Debug, PartialEq, Eq)]
pub struct StoreNoteAt {
    pub destination: String,
}

/// The strategy that stores a note in a directory under a preferred name, and
/// under a numbered one where that name is taken.
#[derive(Clone, Debug, PartialEq, Eq)]
pub struct StoreNoteIn {
    pub storage_directory: String,
    pub preferred_file_stem: String,
    pub file_extension: String,
}

/// The closed set of commit strategies.
#[derive(Clone, Debug, PartialEq, Eq)]
pub enum Strategy {
    At(StoreNoteAt),
    In(StoreNoteIn),
}

/// The staged note could be neither kept nor read back: its content is lost.
#[derive(Clone, Debug, PartialEq, Eq)]
pub struct TryPreserveNoteError {
    pub keep_error: IoFailure,
    pub read_error: IoFailure,
}

/// Why a taken destination could not be replaced by a free one.
#[derive(Clone, Debug, PartialEq, Eq)]
pub struct GenerateUnclobberedDestinationError(pub FindNextDestinationBasenameError);

/// How storing at an exact path failed.
#[allow(inconsistent_fields)]
#[derive(Clone, Debug, PartialEq, Eq)]
pub enum StoreNoteAtError {
    CopyError { src: String, destination: String, err: IoFailure },
    NoteClobberPrevented { src: String, destination: String, err: IoFailure },
    TryPreserveNoteError(TryPreserveNoteError),
}

/// How storing in a directory failed.
#[allow(inconsistent_fields)]
#[derive(Clone, Debug, PartialEq, Eq)]
pub enum StoreNoteInError {
    CopyError { src: String, destination: String, err: IoFailure },
    NoteClobberPreventionError {
        src: String,
        destination: String,
        err: GenerateUnclobberedDestinationError,
    },
    TryPreserveNoteError(TryPreserveNoteError),
}

/// The failure of either strategy.
#[derive(Clone, Debug, PartialEq, Eq)]
pub enum InnerStoreNoteError {
    StoreNoteInError(StoreNoteInError),
    StoreNoteAtError(StoreNoteAtError),
}

/// A commit strategy failed.
#[derive(Clone, Debug, PartialEq, Eq)]
pub struct StoreNoteError {
    pub inner: InnerStoreNoteError,
}

/// How a commit behind the content check failed.
#[derive(Clone, Debug, PartialEq, Eq)]
pub enum InnerStoreIfDifferentError {
    CheckFileError { path: String, err: IoFailure },
    TryPreserveNoteError(TryPreserveNoteError),
    StoreNoteError(StoreNoteError),
}

/// A commit failed, at the content check or in the strategy.
#[derive(Clone, Debug, PartialEq, Eq)]
pub struct StoreIfDifferentError(pub InnerStoreIfDifferentError);

/// Why a commit was abandoned.
#[derive(Clone, Debug, PartialEq, Eq)]
pub enum Cause {
    /// The staged note could not be read for the content check.
    Check(IoFailure),
    /// The exact destination exists already.
    Clobber(IoFailure),
    /// The copy failed for another reason.
    Copy(IoFailure),
    /// The destination exists and no other name could be picked.
    Scan(FindNextDestinationBasenameError),
}

/// What became of the staged note after the commit was abandoned.
#[derive(Clone, Debug, PartialEq, Eq)]
pub enum Rescue {
    /// It was turned into a permanent file where it lay.
    Kept,
    /// It could not be kept; its text is here, to be shown to the user.
    Shown(String),
    /// It could be neither kept nor read.
    Lost(TryPreserveNoteError),
}

/// Where a commit stands. `attempt` is 0 for the preferred destination and
/// the number in the file name for a numbered one.
#[derive(Clone, Debug, PartialEq, Eq)]
pub enum Phase {
    /// Waiting for the staged bytes, to tell whether anything changed.
    Checking,
    /// Waiting for the exclusive copy to the current destination.
    Copying { attempt: u64 },
    /// The destination was taken; waiting for the directory's listing.
    Scanning { attempt: u64 },
    /// Abandoned; waiting for the staged note to be kept.
    Keeping { attempt: u64, cause: Cause },
    /// Keeping failed; waiting for the staged note's text.
    Reading { attempt: u64, cause: Cause, keep_error: IoFailure },
    /// Finished: the note is unchanged and nothing was committed.
    Unchanged,
    /// Finished: the note is committed.
    Stored { attempt: u64 },
    /// Finished: the commit failed.
    Failed { attempt: u64, cause: Cause, rescue: Rescue },
}

/// What the caller did for the commit, and how it went.
#[derive(Clone, Debug, PartialEq, Eq)]
pub enum Reply {
    Staged(Vec<u8>),
    StagedUnreadable(IoFailure),
    Copied,
    CopyRefused(CopyToDestinationError),
    Listed(Vec<String>),
    ListFailed(IoFailure),
    Kept,
    KeepFailed(IoFailure),
    Read(String),
    ReadFailed(IoFailure),
}

/// What the caller has to do next for the commit.
#[derive(Clone, Debug, PartialEq, Eq)]
pub enum Request {
    /// Read the staged note's bytes; answer `Staged` or `StagedUnreadable`.
    ReadStagedBytes,
    /// Copy the staged note to a file created new at `destination`, from its
    /// first byte on; answer `Copied` or `CopyRefused`.
    CopyExclusive { destination: String },
    /// `taken` exists already: say so, list `directory` with the names that
    /// are text, and answer `Listed` or `ListFailed`.
    ListDirectory { directory: String, taken: String },
    /// Make the staged file permanent; answer `Kept` or `KeepFailed`.
    KeepStaged,
    /// Read the staged note as text; answer `Read` or `ReadFailed`.
    ReadStagedText,
    /// Nothing: the commit has finished.
    Finished,
}

/// One commit of one staged note.
#[derive(Debug, PartialEq, Eq)]
pub struct Commit {
    strategy: Strategy,
    /// Where the staged note lies.
    staged_path: String,
    /// The text the note started from; read only while `Checking`.
    against: String,
    phase: Phase,
}

impl Cause {
    /// Whether a commit with `strategy` can be abandoned for this cause: only
    /// an exact destination is refused for existing, and only a directory is
    /// ever listed.
    pub open spec fn fits(self, strategy: Strategy) -> bool {
        match self {
            Cause::Clobber(_) => strategy is At,
            Cause::Scan(_) => strategy is In,
            _ => true,
        }
    }
}

impl Phase {
    /// Whether a commit with `strategy` can be in this phase.
    pub open spec fn fits(self, strategy: Strategy) -> bool {
        match self {
            Phase::Scanning { .. } => strategy is In,
            Phase::Keeping { cause, .. } => cause.fits(strategy),
            Phase::Reading { cause, .. } => cause.fits(strategy),
            Phase::Failed { cause, .. } => cause.fits(strategy),
            _ => true,
        }
    }
}

impl Strategy {
    /// The path of the destination with the given number.
    pub open spec fn destination_text(self, attempt: nat) -> Seq<char> {
        match self {
            Strategy::At(store) => store.destination@,
            Strategy::In(store) => joined_path(
                store.storage_directory@,
                if attempt == 0 {
                    store.preferred_file_stem@ + seq!['.'] + store.file_extension@
                } else {
                    numbered_basename(store.preferred_file_stem@, attempt, store.file_extension@)
                },
            ),
        }
    }

    /// The path of the destination with the given number.
    pub fn destination(&self, attempt: u64) -> (path: String)
        ensures
            path@ == self.destination_text(attempt as nat),
    {
        match self {
            Strategy::At(store) => store.destination.clone(),
            Strategy::In(store) => {
                let basename = if attempt == 0 {
                    let mut preferred = store.preferred_file_stem.clone();
                    preferred.push('.');
                    preferred.append(store.file_extension.as_str());
                    assert(preferred@ =~= store.preferred_file_stem@ + seq!['.']
                        + store.file_extension@);
                    preferred
                } else {
                    numbered_name(
                        store.preferred_file_stem.as_str(),
                        attempt,
                        store.file_extension.as_str(),
                    )
                };
                join_path(store.storage_directory.as_str(), basename.as_str())
            },
        }
    }
}

impl Commit {
    #[verifier::type_invariant]
    spec fn phase_fits(self) -> bool {
        self.phase.fits(self.strategy)
    }

    /// The strategy that the commit follows.
    pub closed spec fn strategy(self) -> Strategy {
        self.strategy
    }

    /// Where the staged note lies.
    pub closed spec fn staged_path(self) -> String {
        self.staged_path
    }

    /// The text that the staged note is held against while `Checking`.
    pub closed spec fn against(self) -> String {
        self.against
    }

    /// Where the commit stands.
    pub closed spec fn phase(self) -> Phase {
        self.phase
    }

    /// The phase that follows when the caller answers `reply`. An answer that
    /// the current phase did not ask for changes nothing.
    pub open spec fn step(self, reply: Reply) -> Phase {
        match (self.phase(), reply) {
            (Phase::Checking, Reply::Staged(bytes)) => if differs(bytes@, self.against()@) {
                Phase::Copying { attempt: 0 }
            } else {
                Phase::Unchanged
            },
            (Phase::Checking, Reply::StagedUnreadable(err)) => Phase::Keeping {
                attempt: 0,
                cause: Cause::Check(err),
            },
            (Phase::Copying { attempt }, Reply::Copied) => Phase::Stored { attempt },
            (Phase::Copying { attempt }, Reply::CopyRefused(err)) => if err.destination_exists() {
                match self.strategy() {
                    Strategy::At(_) => Phase::Keeping {
                        attempt,
                        cause: Cause::Clobber(err.failure()),
                    },
                    Strategy::In(_) => Phase::Scanning { attempt },
                }
            } else {
                Phase::Keeping { attempt, cause: Cause::Copy(err.failure()) }
            },
            (Phase::Scanning { attempt }, Reply::Listed(names)) => match self.strategy() {
                Strategy::At(_) => self.phase(),
                Strategy::In(store) => if has_next_number(
                    store.preferred_file_stem@,
                    store.file_extension@,
                    names.deep_view(),
                ) {
                    Phase::Copying {
                        attempt: (largest_suffix(
                            store.preferred_file_stem@,
                            store.file_extension@,
                            names.deep_view(),
                        ) + 1) as u64,
                    }
                } else {
                    Phase::Keeping {
                        attempt,
                        cause: Cause::Scan(FindNextDestinationBasenameError::NumbersExhausted),
                    }
                },
            },
            (Phase::Scanning { attempt }, Reply::ListFailed(err)) => Phase::Keeping {
                attempt,
                cause: Cause::Scan(FindNextDestinationBasenameError::ReadDirError(err)),
            },
            (Phase::Keeping { attempt, cause }, Reply::Kept) => Phase::Failed {
                attempt,
                cause,
                rescue: Rescue::Kept,
            },
            (Phase::Keeping { attempt, cause }, Reply::KeepFailed(keep_error)) => Phase::Reading {
                attempt,
                cause,
                keep_error,
            },
            (Phase::Reading { attempt, cause, keep_error }, Reply::Read(text)) => Phase::Failed {
                attempt,
                cause,
                rescue: Rescue::Shown(text),
            },
            (
                Phase::Reading { attempt, cause, keep_error },
                Reply::ReadFailed(read_error),
            ) => Phase::Failed {
                attempt,
                cause,
                rescue: Rescue::Lost(TryPreserveNoteError { keep_error, read_error }),
            },
            _ => self.phase(),
        }
    }

    /// Takes the caller's answer and moves the commit on.
    pub fn advance(self, reply: Reply) -> (next: Commit)
        ensures
            next.strategy() == self.strategy(),
            next.staged_path() == self.staged_path(),
            next.against() == self.against(),
            next.phase() == self.step(reply),
            self.phase().fits(self.strategy()),
            next.phase().fits(next.strategy()),
    {
        proof {
            use_type_invariant(&self);
        }
        let Commit { strategy, staged_path, against, phase } = self;
        let phase = match phase {
            Phase::Checking => match reply {
                Reply::Staged(bytes) => {
                    if is_different(bytes.as_slice(), against.as_str()) {
                        Phase::Copying { attempt: 0 }
                    } else {
                        Phase::Unchanged
                    }
                },
                Reply::StagedUnreadable(err) => Phase::Keeping {
                    attempt: 0,
                    cause: Cause::Check(err),
                },
                _ => Phase::Checking,
            },
            Phase::Copying { attempt } => match reply {
                Reply::Copied => Phase::Stored { attempt },
                Reply::CopyRefused(err) => {
                    if err.is_destination_exists() {
                        match &strategy {
                            Strategy::At(_) => Phase::Keeping {
                                attempt,
                                cause: Cause::Clobber(err.into_failure()),
                            },
                            Strategy::In(_) => Phase::Scanning { attempt },
                        }
                    } else {
                        Phase::Keeping { attempt, cause: Cause::Copy(err.into_failure()) }
                    }
                },
                _ => Phase::Copying { attempt },
            },
            Phase::Scanning { attempt } => match reply {
                Reply::Listed(names) => match &strategy {
                    Strategy::At(_) => Phase::Scanning { attempt },
                    Strategy::In(store) => match next_suffix(
                        &names,
                        store.preferred_file_stem.as_str(),
                        store.file_extension.as_str(),
                    ) {
                        Some(number) => Phase::Copying { attempt: number },
                        None => Phase::Keeping {
                            attempt,
                            cause: Cause::Scan(FindNextDestinationBasenameError::NumbersExhausted),
                        },
                    },
                },
                Reply::ListFailed(err) => Phase::Keeping {
                    attempt,
                    cause: Cause::Scan(FindNextDestinationBasenameError::ReadDirError(err)),
                },
                _ => Phase::Scanning { attempt },
            },
            Phase::Keeping { attempt, cause } => match reply {
                Reply::Kept => Phase::Failed { attempt, cause, rescue: Rescue::Kept },
                Reply::KeepFailed(keep_error) => Phase::Reading { attempt, cause, keep_error },
                _ => Phase::Keeping { attempt, cause },
            },
            Phase::Reading { attempt, cause, keep_error } => match reply {
                Reply::Read(text) => Phase::Failed { attempt, cause, rescue: Rescue::Shown(text) },
                Reply::ReadFailed(read_error) => Phase::Failed {
                    attempt,
                    cause,
                    rescue: Rescue::Lost(TryPreserveNoteError { keep_error, read_error }),
                },
                _ => Phase::Reading { attempt, cause, keep_error },
            },
            Phase::Unchanged => Phase::Unchanged,
            Phase::Stored { attempt } => Phase::Stored { attempt },
            Phase::Failed { attempt, cause, rescue } => Phase::Failed { attempt, cause, rescue },
        };
        Commit { strategy, staged_path, against, phase }
    }
}

impl Strategy {
    /// The directory that is listed when the destination is taken.
    pub open spec fn directory_text(self) -> Seq<char>
        recommends
            self is In,
    {
        match self {
            Strategy::At(store) => store.destination@,
            Strategy::In(store) => store.storage_directory@,
        }
    }
}

impl Commit {
    /// Whether the commit has come to its end.
    pub open spec fn finished(self) -> bool {
        self.phase() is Unchanged || self.phase() is Stored || self.phase() is Failed
    }

    /// Whether `request` is what is asked of the caller in the current phase.
    pub open spec fn asks(self, request: Request) -> bool {
        match self.phase() {
            Phase::Checking => request == Request::ReadStagedBytes,
            Phase::Copying { attempt } => {
                &&& request matches Request::CopyExclusive { destination }
                &&& destination@ == self.strategy().destination_text(attempt as nat)
            },
            Phase::Scanning { attempt } => {
                &&& request matches Request::ListDirectory { directory, taken }
                &&& directory@ == self.strategy().directory_text()
                &&& taken@ == self.strategy().destination_text(attempt as nat)
            },
            Phase::Keeping { .. } => request == Request::KeepStaged,
            Phase::Reading { .. } => request == Request::ReadStagedText,
            _ => request == Request::Finished,
        }
    }

    /// What the caller has to do next.
    pub fn request(&self) -> (request: Request)
        ensures
            self.asks(request),
    {
        proof {
            use_type_invariant(self);
        }
        match &self.phase {
            Phase::Checking => Request::ReadStagedBytes,
            Phase::Copying { attempt } => Request::CopyExclusive {
                destination: self.strategy.destination(*attempt),
            },
            Phase::Scanning { attempt } => match &self.strategy {
                Strategy::In(store) => Request::ListDirectory {
                    directory: store.storage_directory.clone(),
                    taken: self.strategy.destination(*attempt),
                },
                Strategy::At(_) => Request::Finished,
            },
            Phase::Keeping { .. } => Request::KeepStaged,
            Phase::Reading { .. } => Request::ReadStagedText,
            _ => Request::Finished,
        }
    }

    /// Whether `error` is the report of a commit that was abandoned at the
    /// destination `attempt` for `cause`, with the staged note rescued as
    /// `rescue` says. A lost note is reported in place of the cause.
    pub open spec fn reports(
        self,
        attempt: u64,
        cause: Cause,
        rescue: Rescue,
        error: StoreIfDifferentError,
    ) -> bool {
        let destination_text = self.strategy().destination_text(attempt as nat);
        match (rescue, cause, self.strategy()) {
            (Rescue::Lost(lost), Cause::Check(_), _) => error.0
                == InnerStoreIfDifferentError::TryPreserveNoteError(lost),
            (Rescue::Lost(lost), _, Strategy::At(_)) => error.0
                == InnerStoreIfDifferentError::StoreNoteError(
                StoreNoteError {
                    inner: InnerStoreNoteError::StoreNoteAtError(
                        StoreNoteAtError::TryPreserveNoteError(lost),
                    ),
                },
            ),
            (Rescue::Lost(lost), _, Strategy::In(_)) => error.0
                == InnerStoreIfDifferentError::StoreNoteError(
                StoreNoteError {
                    inner: InnerStoreNoteError::StoreNoteInError(
                        StoreNoteInError::TryPreserveNoteError(lost),
                    ),
                },
            ),
            (_, Cause::Check(err), _) => error.0 == (InnerStoreIfDifferentError::CheckFileError {
                path: self.staged_path(),
                err,
            }),
            (_, Cause::Clobber(err), _) => {
                &&& error.0 matches InnerStoreIfDifferentError::StoreNoteError(
                    StoreNoteError {
                        inner: InnerStoreNoteError::StoreNoteAtError(
                            StoreNoteAtError::NoteClobberPrevented { src, destination, err: found },
                        ),
                    },
                )
                &&& src == self.staged_path()
                &&& destination@ == destination_text
                &&& found == err
            },
            (_, Cause::Copy(err), Strategy::At(_)) => {
                &&& error.0 matches InnerStoreIfDifferentError::StoreNoteError(
                    StoreNoteError {
                        inner: InnerStoreNoteError::StoreNoteAtError(
                            StoreNoteAtError::CopyError { src, destination, err: found },
                        ),
                    },
                )
                &&& src == self.staged_path()
                &&& destination@ == destination_text
                &&& found == err
            },
            (_, Cause::Copy(err), Strategy::In(_)) => {
                &&& error.0 matches InnerStoreIfDifferentError::StoreNoteError(
                    StoreNoteError {
                        inner: InnerStoreNoteError::StoreNoteInError(
                            StoreNoteInError::CopyError { src, destination, err: found },
                        ),
                    },
                )
                &&& src == self.staged_path()
                &&& destination@ == destination_text
                &&& found == err
            },
            (_, Cause::Scan(err), _) => {
                &&& error.0 matches InnerStoreIfDifferentError::StoreNoteError(
                    StoreNoteError {
                        inner: InnerStoreNoteError::StoreNoteInError(
                            StoreNoteInError::NoteClobberPreventionError {
                                src,
                                destination,
                                err: found,
                            },
                        ),
                    },
                )
                &&& src == self.staged_path()
                &&& destination@ == destination_text
                &&& found == GenerateUnclobberedDestinationError(err)
            },
        }
    }

    /// Whether `outcome` is how the commit ended: `None` while it has not,
    /// no path where the note was unchanged, else the committed path or the
    /// error.
    pub open spec fn ended_as(
        self,
        outcome: Option<Result<Option<String>, StoreIfDifferentError>>,
    ) -> bool {
        match self.phase() {
            Phase::Unchanged => outcome == Some(
                Ok::<Option<String>, StoreIfDifferentError>(None),
            ),
            Phase::Stored { attempt } => {
                &&& outcome matches Some(Ok(Some(path)))
                &&& path@ == self.strategy().destination_text(attempt as nat)
            },
            Phase::Failed { attempt, cause, rescue } => {
                &&& outcome matches Some(Err(error))
                &&& self.reports(attempt, cause, rescue, error)
            },
            _ => outcome is None,
        }
    }

    /// How the commit ended, once it has.
    pub fn outcome(self) -> (outcome: Option<Result<Option<String>, StoreIfDifferentError>>)
        ensures
            self.ended_as(outcome),
    {
        proof {
            use_type_invariant(&self);
        }
        let Commit { strategy, staged_path, against, phase } = self;
        match phase {
            Phase::Unchanged => Some(Ok(None)),
            Phase::Stored { attempt } => Some(Ok(Some(strategy.destination(attempt)))),
            Phase::Failed { attempt, cause, rescue } => {
                let src = staged_path;
                let destination = strategy.destination(attempt);
                let inner = match (rescue, cause, strategy) {
                    (Rescue::Lost(lost), Cause::Check(_), _) => {
                        InnerStoreIfDifferentError::TryPreserveNoteError(lost)
                    },
                    (Rescue::Lost(lost), _, Strategy::At(_)) => {
                        InnerStoreIfDifferentError::StoreNoteError(
                            StoreNoteError {
                                inner: InnerStoreNoteError::StoreNoteAtError(
                                    StoreNoteAtError::TryPreserveNoteError(lost),
                                ),
                            },
                        )
                    },
                    (Rescue::Lost(lost), _, Strategy::In(_)) => {
                        InnerStoreIfDifferentError::StoreNoteError(
                            StoreNoteError {
                                inner: InnerStoreNoteError::StoreNoteInError(
                                    StoreNoteInError::TryPreserveNoteError(lost),
                                ),
                            },
                        )
                    },
                    (_, Cause::Check(err), _) => InnerStoreIfDifferentError::CheckFileError {
                        path: src,
                        err,
                    },
                    (_, Cause::Clobber(err), _) => InnerStoreIfDifferentError::StoreNoteError(
                        StoreNoteError {
                            inner: InnerStoreNoteError::StoreNoteAtError(
                                StoreNoteAtError::NoteClobberPrevented { src, destination, err },
                            ),
                        },
                    ),
                    (_, Cause::Copy(err), Strategy::At(_)) => {
                        InnerStoreIfDifferentError::StoreNoteError(
                            StoreNoteError {
                                inner: InnerStoreNoteError::StoreNoteAtError(
                                    StoreNoteAtError::CopyError { src, destination, err },
                                ),
                            },
                        )
                    },
                    (_, Cause::Copy(err), Strategy::In(_)) => {
                        InnerStoreIfDifferentError::StoreNoteError(
                            StoreNoteError {
                                inner: InnerStoreNoteError::StoreNoteInError(
                                    StoreNoteInError::CopyError { src, destination, err },
                                ),
                            },
                        )
                    },
                    (_, Cause::Scan(err), _) => InnerStoreIfDifferentError::StoreNoteError(
                        StoreNoteError {
                            inner: InnerStoreNoteError::StoreNoteInError(
                                StoreNoteInError::NoteClobberPreventionError {
                                    src,
                                    destination,
                                    err: GenerateUnclobberedDestinationError(err),
                                },
                            ),
                        },
                    ),
                };
                Some(Err(StoreIfDifferentError(inner)))
            },
            _ => None,
        }
    }

    /// The staged note's text, where it could not be kept and has to be shown
    /// to the user instead.
    pub fn rescued_text(&self) -> (text: Option<String>)
        ensures
            match self.phase() {
                Phase::Failed { rescue: Rescue::Shown(shown), .. } => text == Some(shown),
                _ => text is None,
            },
    {
        match &self.phase {
            Phase::Failed { rescue: Rescue::Shown(shown), .. } => Some(shown.clone()),
            _ => None,
        }
    }
}

/// A way to commit a staged note: one of the two strategies.
pub trait StoreNote: Sized {
    /// The strategy that a commit started here follows.
    spec fn plan(self) -> Strategy;

    /// Starts the commit of the note staged at `staged_path`. The first thing
    /// asked for is the copy to the preferred destination.
    fn store(self, staged_path: String) -> (commit: Commit)
        ensures
            commit.strategy() == self.plan(),
            commit.staged_path() == staged_path,
            commit.against()@ == Seq::<char>::empty(),
            commit.phase() == (Phase::Copying { attempt: 0 }),
    ;
}

impl StoreNote for StoreNoteAt {
    open spec fn plan(self) -> Strategy {
        Strategy::At(self)
    }

    fn store(self, staged_path: String) -> (commit: Commit) {
        Commit {
            strategy: Strategy::At(self),
            staged_path,
            against: String::new(),
            phase: Phase::Copying { attempt: 0 },
        }
    }
}

impl StoreNote for StoreNoteIn {
    open spec fn plan(self) -> Strategy {
        Strategy::In(self)
    }

    fn store(self, staged_path: String) -> (commit: Commit) {
        Commit {
            strategy: Strategy::In(self),
            staged_path,
            against: String::new(),
            phase: Phase::Copying { attempt: 0 },
        }
    }
}

/// Starts the commit of the note staged at `staged_path`, to happen only if
/// its content differs from `against`. The first thing asked for is the staged
/// note's bytes.
pub fn store_if_different<S: StoreNote>(storage: S, staged_path: String, against: &str) -> (commit:
    Commit)
    ensures
        commit.strategy() == storage.plan(),
        commit.staged_path() == staged_path,
        commit.against()@ == against@,
        commit.phase() == Phase::Checking,
{
    let Commit { strategy, staged_path, against: _, phase: _ } = storage.store(staged_path);
    Commit { strategy, staged_path, against: String::from_str(against), phase: Phase::Checking }
}

/// A staged note whose bytes are those of the text it started from is not
/// committed: the commit ends at once and produces no path.
pub proof fn lemma_identical_content_is_not_committed(commit: Commit, next: Commit, staged: Vec<u8>)
    requires
        commit.phase() is Checking,
        staged@ == encode_utf8(commit.against()@),
        next.phase() == commit.step(Reply::Staged(staged)),
    ensures
        next.phase() is Unchanged,
        forall|outcome: Option<Result<Option<String>, StoreIfDifferentError>>|
            next.ended_as(outcome) ==> outcome == Some(
                Ok::<Option<String>, StoreIfDifferentError>(None),
            ),
{
}

/// A staged note whose digest differs from that of the text it started from
/// goes on to be copied to the preferred destination.
pub proof fn lemma_changed_content_is_committed(commit: Commit, staged: Vec<u8>)
    requires
        commit.phase() is Checking,
        differs(staged@, commit.against()@),
    ensures
        commit.step(Reply::Staged(staged)) == (Phase::Copying { attempt: 0 }),
{
}

/// An exact destination that exists is never replaced and never exchanged for
/// another: the commit asks for the staged note to be kept and then fails with
/// the clobber error, which names both the destination and the staged note.
pub proof fn lemma_exact_destination_is_never_clobbered(
    commit: Commit,
    refusal: CopyToDestinationError,
    kept: Commit,
    failed: Commit,
    error: StoreIfDifferentError,
)
    requires
        commit.strategy() is At,
        commit.phase() is Copying,
        refusal.destination_exists(),
        kept.strategy() == commit.strategy(),
        kept.staged_path() == commit.staged_path(),
        kept.phase() == commit.step(Reply::CopyRefused(refusal)),
        failed.strategy() == commit.strategy(),
        failed.staged_path() == commit.staged_path(),
        failed.phase() == kept.step(Reply::Kept),
        failed.ended_as(Some(Err(error))),
    ensures
        kept.asks(Request::KeepStaged),
        error.0 matches InnerStoreIfDifferentError::StoreNoteError(
            StoreNoteError {
                inner: InnerStoreNoteError::StoreNoteAtError(
                    StoreNoteAtError::NoteClobberPrevented { src, destination, .. },
                ),
            },
        ) && src == commit.staged_path() && destination@ == commit.strategy().destination_text(0),
{
}

/// In a directory, a destination that exists is not replaced either: the
/// commit asks for the directory's listing, and then for a copy to the name
/// numbered one above every numbered name of the listing, so to number 1
/// where there is none. That name is none of the names of the listing. Where
/// the number does not fit 64 bits, the commit is abandoned and the staged
/// note is to be kept.
pub proof fn lemma_taken_name_gets_next_number(
    commit: Commit,
    refusal: CopyToDestinationError,
    scanning: Commit,
    names: Vec<String>,
    index: int,
)
    requires
        commit.strategy() is In,
        commit.phase() is Copying,
        refusal.destination_exists(),
        scanning.strategy() == commit.strategy(),
        scanning.phase() == commit.step(Reply::CopyRefused(refusal)),
        0 <= index < names.len(),
    ensures
        scanning.phase() is Scanning,
        ({
            let stem = commit.strategy()->In_0.preferred_file_stem@;
            let extension = commit.strategy()->In_0.file_extension@;
            let largest = largest_suffix(stem, extension, names.deep_view());
            match scanning.step(Reply::Listed(names)) {
                Phase::Copying { attempt } => {
                    &&& attempt == largest + 1
                    &&& suffix_of(stem, extension, names[index]@) matches Some(number) ==> number
                        < attempt
                    &&& names[index]@ != numbered_basename(stem, attempt as nat, extension)
                },
                Phase::Keeping { cause, .. } => {
                    &&& largest >= u64::MAX
                    &&& cause == Cause::Scan(FindNextDestinationBasenameError::NumbersExhausted)
                },
                _ => false,
            }
        }),
{
    let store = commit.strategy()->In_0;
    let stem = store.preferred_file_stem@;
    let extension = store.file_extension@;
    lemma_largest_suffix_bounds(stem, extension, names.deep_view(), index);
    lemma_next_name_is_unused(stem, extension, names.deep_view(), index);
}

/// No commit fails before the caller was asked to keep the staged note, and
/// the note counts as lost only after it could be neither kept nor read.
pub proof fn lemma_failure_follows_preservation(commit: Commit, reply: Reply)
    requires
        commit.step(reply) is Failed,
    ensures
        commit.phase() is Keeping || commit.phase() is Reading || commit.phase() is Failed,
        commit.step(reply)->Failed_rescue is Lost ==> commit.phase() is Reading
            || commit.phase() is Failed,
        commit.phase() is Keeping ==> reply is Kept,
{
}

} // verus!
