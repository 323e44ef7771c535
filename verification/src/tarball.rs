//! npm tarballs: checking them against the registry's integrity string,
//! laying their entries out under an output folder, and moving an extracted
//! folder into place.
use base64::prelude::BASE64_STANDARD;
use base64::Engine;
use crate::text::same_text;
use vstd::prelude::*;

verus! {

/// How an extracted tarball reaches its destination.
#[derive(Debug, Copy, Clone, PartialEq, Eq, Structural)]
pub enum TarballExtractionMode {
    /// Overwrites the destination directory without deleting any files.
    Overwrite,
    /// Creates and writes to a sibling temporary directory. When done, moves
    /// it to the final destination.
    ///
    /// This is more robust than `Overwrite` as it better handles multiple
    /// processes writing to the directory at the same time.
    SiblingTempDir,
}

impl TarballExtractionMode {
    /// Whether the tarball is first extracted into a sibling temporary
    /// directory and then moved to the destination.
    pub fn uses_temp_dir(&self) -> (r: bool)
        ensures
            r == (*self == TarballExtractionMode::SiblingTempDir),
    {
        match self {
            TarballExtractionMode::Overwrite => false,
            TarballExtractionMode::SiblingTempDir => true,
        }
    }
}

/// The integrity that the npm registry gives for a package version.
pub enum DistIntegrity {
    /// `<algorithm>-<hash>`, the hash encoded in base64.
    Integrity { algorithm: String, base64_hash: String },
    /// An integrity string without a dash.
    UnknownIntegrity(String),
    /// The legacy sha1 hash in hex.
    LegacySha1Hex(String),
}

pub enum DistIntegrityView {
    Integrity { algorithm: Seq<char>, base64_hash: Seq<char> },
    UnknownIntegrity(Seq<char>),
    LegacySha1Hex(Seq<char>),
}

impl View for DistIntegrity {
    type V = DistIntegrityView;

    open spec fn view(&self) -> DistIntegrityView {
        match self {
            DistIntegrity::Integrity { algorithm, base64_hash } => DistIntegrityView::Integrity {
                algorithm: algorithm@,
                base64_hash: base64_hash@,
            },
            DistIntegrity::UnknownIntegrity(s) => DistIntegrityView::UnknownIntegrity(s@),
            DistIntegrity::LegacySha1Hex(s) => DistIntegrityView::LegacySha1Hex(s@),
        }
    }
}

/// Why a tarball was refused.
pub enum IntegrityError {
    /// The integrity names a hash function other than sha512 and sha1.
    UnsupportedHashFunction { package: String, hash_kind: String },
    /// The integrity string has no algorithm.
    UnsupportedIntegrityKind { package: String, integrity: String },
    /// The tarball's checksum differs from the registry's.
    ChecksumMismatch { package: String, expected: String, actual: String },
}

pub enum IntegrityErrorView {
    UnsupportedHashFunction { package: Seq<char>, hash_kind: Seq<char> },
    UnsupportedIntegrityKind { package: Seq<char>, integrity: Seq<char> },
    ChecksumMismatch { package: Seq<char>, expected: Seq<char>, actual: Seq<char> },
}

impl View for IntegrityError {
    type V = IntegrityErrorView;

    open spec fn view(&self) -> IntegrityErrorView {
        match self {
            IntegrityError::UnsupportedHashFunction { package, hash_kind } =>
                IntegrityErrorView::UnsupportedHashFunction { package: package@, hash_kind: hash_kind@ },
            IntegrityError::UnsupportedIntegrityKind { package, integrity } =>
                IntegrityErrorView::UnsupportedIntegrityKind { package: package@, integrity: integrity@ },
            IntegrityError::ChecksumMismatch { package, expected, actual } =>
                IntegrityErrorView::ChecksumMismatch {
                    package: package@,
                    expected: expected@,
                    actual: actual@,
                },
        }
    }
}

/// The SHA-512 digest of the bytes, as `ring` computes it.
pub uninterp spec fn ring_sha512(data: Seq<u8>) -> Seq<u8>;

/// The SHA-1 digest of the bytes, as `ring` computes it.
pub uninterp spec fn ring_sha1(data: Seq<u8>) -> Seq<u8>;

/// The standard, padded base64 encoding of the bytes.
pub uninterp spec fn base64_standard(data: Seq<u8>) -> Seq<char>;

/// A lower-case hexadecimal digit.
pub open spec fn hex_digit(n: u8) -> char {
    seq!['0', '1', '2', '3', '4', '5', '6', '7', '8', '9', 'a', 'b', 'c', 'd', 'e', 'f'][n as int]
}

/// The bytes in lower-case hexadecimal, two digits per byte, high nibble
/// first.
pub open spec fn lower_hex(data: Seq<u8>) -> Seq<char>
    decreases data.len(),
{
    if data.len() == 0 {
        Seq::empty()
    } else {
        lower_hex(data.drop_last()) + seq![hex_digit(data.last() / 16), hex_digit(data.last() % 16)]
    }
}

/// `ring::digest::digest` with `SHA512`: its result is named `ring_sha512`
/// and is 64 bytes long.
#[verifier::external_body]
fn sha512_digest(data: &[u8]) -> (r: Vec<u8>)
    ensures
        r@ == ring_sha512(data@),
        r@.len() == 64,
{
    ring::digest::digest(&ring::digest::SHA512, data).as_ref().to_vec()
}

/// `ring::digest::digest` with `SHA1_FOR_LEGACY_USE_ONLY`: its result is
/// named `ring_sha1` and is 20 bytes long.
#[verifier::external_body]
fn sha1_digest(data: &[u8]) -> (r: Vec<u8>)
    ensures
        r@ == ring_sha1(data@),
        r@.len() == 20,
{
    ring::digest::digest(&ring::digest::SHA1_FOR_LEGACY_USE_ONLY, data).as_ref().to_vec()
}

/// `base64`'s `BASE64_STANDARD.encode`: its result is named
/// `base64_standard`.
#[verifier::external_body]
fn base64_encode(data: &[u8]) -> (r: String)
    ensures
        r@ == base64_standard(data@),
{
    BASE64_STANDARD.encode(data)
}

/// `faster_hex::hex_string`: the bytes in lower-case hexadecimal, each byte
/// as its high nibble's digit then its low nibble's.
#[verifier::external_body]
fn hex_string(data: &[u8]) -> (r: String)
    ensures
        r@ == lower_hex(data@),
{
    faster_hex::hex_string(data)
}

/// The checksum that the tarball has under the registry's integrity, with
/// the checksum the registry expects; or why it cannot be checked.
pub open spec fn tarball_checksums(package: Seq<char>, data: Seq<u8>, integrity: DistIntegrityView)
    -> Result<(Seq<char>, Seq<char>), IntegrityErrorView>
{
    match integrity {
        DistIntegrityView::Integrity { algorithm, base64_hash } => {
            if algorithm == "sha512"@ {
                Ok((base64_standard(ring_sha512(data)), base64_hash))
            } else if algorithm == "sha1"@ {
                Ok((base64_standard(ring_sha1(data)), base64_hash))
            } else {
                Err(IntegrityErrorView::UnsupportedHashFunction { package, hash_kind: algorithm })
            }
        },
        DistIntegrityView::LegacySha1Hex(hex) => Ok((lower_hex(ring_sha1(data)), hex)),
        DistIntegrityView::UnknownIntegrity(s) =>
            Err(IntegrityErrorView::UnsupportedIntegrityKind { package, integrity: s }),
    }
}

/// Whether the tarball passes its integrity check, and why not.
pub open spec fn tarball_integrity(package: Seq<char>, data: Seq<u8>, integrity: DistIntegrityView)
    -> Result<(), IntegrityErrorView>
{
    match tarball_checksums(package, data, integrity) {
        Ok((actual, expected)) => if actual == expected {
            Ok(())
        } else {
            Err(IntegrityErrorView::ChecksumMismatch { package, expected, actual })
        },
        Err(e) => Err(e),
    }
}

/// A tarball passes exactly when the digest of all its bytes, encoded as
/// the integrity says, equals the hash the registry gave; an unknown hash
/// function or integrity kind never passes.
pub proof fn lemma_integrity_checks_whole_tarball(
    package: Seq<char>,
    data: Seq<u8>,
    algorithm: Seq<char>,
    hash: Seq<char>,
)
    ensures
        algorithm == "sha512"@ ==> (tarball_integrity(
            package,
            data,
            DistIntegrityView::Integrity { algorithm, base64_hash: hash },
        ) is Ok <==> base64_standard(ring_sha512(data)) == hash),
        algorithm == "sha1"@ ==> (tarball_integrity(
            package,
            data,
            DistIntegrityView::Integrity { algorithm, base64_hash: hash },
        ) is Ok <==> base64_standard(ring_sha1(data)) == hash),
        algorithm != "sha512"@ && algorithm != "sha1"@ ==> tarball_integrity(
            package,
            data,
            DistIntegrityView::Integrity { algorithm, base64_hash: hash },
        ) is Err,
        tarball_integrity(package, data, DistIntegrityView::LegacySha1Hex(hash)) is Ok <==> lower_hex(
            ring_sha1(data),
        ) == hash,
        tarball_integrity(package, data, DistIntegrityView::UnknownIntegrity(hash)) is Err,
{
    reveal_strlit("sha512");
    reveal_strlit("sha1");
    assert("sha512"@.len() == 6 && "sha1"@.len() == 4);
}

/// Compares the checksum computed for a tarball with the one the registry
/// gave for the package.
pub fn check_tarball_checksum(package: &str, tarball_checksum: String, expected_checksum: &str)
    -> (r: Result<(), IntegrityError>)
    ensures
        r is Ok <==> tarball_checksum@ == expected_checksum@,
        r matches Err(e) ==> e@ == (IntegrityErrorView::ChecksumMismatch {
            package: package@,
            expected: expected_checksum@,
            actual: tarball_checksum@,
        }),
{
    if same_text(tarball_checksum.as_str(), expected_checksum) {
        Ok(())
    } else {
        Err(IntegrityError::ChecksumMismatch {
            package: package.to_owned(),
            expected: expected_checksum.to_owned(),
            actual: tarball_checksum,
        })
    }
}

/// Checks the tarball's bytes against the integrity the npm registry gave:
/// a base64 sha512 or sha1 digest, or a legacy hex sha1 digest.
pub fn verify_tarball_integrity(package: &str, data: &[u8], npm_integrity: &DistIntegrity)
    -> (r: Result<(), IntegrityError>)
    ensures
        r is Ok <==> tarball_integrity(package@, data@, npm_integrity@) is Ok,
        r matches Err(e) ==> tarball_integrity(package@, data@, npm_integrity@) == Err::<(), _>(e@),
        npm_integrity matches DistIntegrity::Integrity { algorithm, base64_hash } ==> {
            &&& algorithm@ == "sha512"@ ==> (r is Ok <==> base64_standard(ring_sha512(data@))
                == base64_hash@)
            &&& algorithm@ == "sha1"@ ==> (r is Ok <==> base64_standard(ring_sha1(data@))
                == base64_hash@)
            &&& (algorithm@ != "sha512"@ && algorithm@ != "sha1"@) ==> r is Err
        },
        npm_integrity matches DistIntegrity::LegacySha1Hex(hex) ==> (r is Ok <==> lower_hex(
            ring_sha1(data@),
        ) == hex@),
        npm_integrity is UnknownIntegrity ==> r is Err,
        r matches Err(IntegrityError::ChecksumMismatch { actual, .. }) ==> (match npm_integrity {
            DistIntegrity::Integrity { algorithm, .. } => if algorithm@ == "sha512"@ {
                actual@ == base64_standard(ring_sha512(data@))
            } else {
                actual@ == base64_standard(ring_sha1(data@))
            },
            DistIntegrity::LegacySha1Hex(_) => actual@ == lower_hex(ring_sha1(data@)),
            DistIntegrity::UnknownIntegrity(_) => false,
        }),
{
    proof {
        reveal_strlit("sha512");
        reveal_strlit("sha1");
        assert("sha512"@.len() == 6 && "sha1"@.len() == 4);
        assert("sha512"@ != "sha1"@);
    }
    match npm_integrity {
        DistIntegrity::Integrity { algorithm, base64_hash } => {
            let digest = if same_text(algorithm.as_str(), "sha512") {
                sha512_digest(data)
            } else if same_text(algorithm.as_str(), "sha1") {
                sha1_digest(data)
            } else {
                return Err(IntegrityError::UnsupportedHashFunction {
                    package: package.to_owned(),
                    hash_kind: algorithm.clone(),
                });
            };
            let tarball_checksum = base64_encode(digest.as_slice());
            check_tarball_checksum(package, tarball_checksum, base64_hash.as_str())
        },
        DistIntegrity::LegacySha1Hex(hex) => {
            let digest = sha1_digest(data);
            let tarball_checksum = hex_string(digest.as_slice());
            check_tarball_checksum(package, tarball_checksum, hex.as_str())
        },
        DistIntegrity::UnknownIntegrity(integrity) => {
            Err(IntegrityError::UnsupportedIntegrityKind {
                package: package.to_owned(),
                integrity: integrity.clone(),
            })
        },
    }
}

/// `String::push`: appends the character.
pub assume_specification[ std::string::String::push ](s: &mut std::string::String, c: char)
    ensures
        final(s)@ == old(s)@.push(c),
;

/// The dist info the npm registry gives for a package version, as far as
/// its integrity goes.
pub struct DistInfo {
    pub shasum: String,
    pub integrity: Option<String>,
}

/// Whether `c` occurs in `s`.
pub open spec fn contains_char(s: Seq<char>, c: char) -> bool {
    exists|k: int| 0 <= k < s.len() && s[k] == c
}

/// The first position of `c` in `s`, where it occurs.
pub open spec fn first_index_of(s: Seq<char>, c: char) -> int {
    choose|k: int| 0 <= k < s.len() && s[k] == c && forall|j: int| 0 <= j < k ==> s[j] != c
}

/// The integrity the registry's dist info stands for: the legacy sha1 hex
/// sum when there is no integrity string; else the string split at its
/// first dash into algorithm and base64 hash; a string without a dash is
/// of an unknown kind.
pub open spec fn dist_integrity_of(shasum: Seq<char>, integrity: Option<Seq<char>>) -> DistIntegrityView {
    match integrity {
        None => DistIntegrityView::LegacySha1Hex(shasum),
        Some(i) => if contains_char(i, '-') {
            let k = first_index_of(i, '-');
            DistIntegrityView::Integrity { algorithm: i.take(k), base64_hash: i.skip(k + 1) }
        } else {
            DistIntegrityView::UnknownIntegrity(i)
        },
    }
}

/// The integrity the registry's dist info stands for.
pub fn dist_integrity(dist: &DistInfo) -> (r: DistIntegrity)
    ensures
        r@ == dist_integrity_of(
            dist.shasum@,
            match &dist.integrity { Some(i) => Some(i@), None => None },
        ),
{
    let integrity = match &dist.integrity {
        Some(i) => i,
        None => {
            return DistIntegrity::LegacySha1Hex(dist.shasum.clone());
        },
    };
    let ghost s = integrity@;
    let mut algorithm = String::new();
    let mut base64_hash = String::new();
    let mut found_dash = false;
    let ghost mut k: int = 0;
    for ch in it: integrity.as_str().chars()
        invariant
            it.seq() == s,
            !found_dash ==> ({
                &&& algorithm@ == s.take(it.index() as int)
                &&& base64_hash@ == Seq::<char>::empty()
                &&& forall|j: int| 0 <= j < it.index() ==> s[j] != '-'
            }),
            found_dash ==> ({
                &&& 0 <= k < it.index()
                &&& s[k] == '-'
                &&& forall|j: int| 0 <= j < k ==> s[j] != '-'
                &&& algorithm@ == s.take(k)
                &&& base64_hash@ == s.subrange(k + 1, it.index() as int)
            }),
    {
        let ghost i = it.index();
        if !found_dash {
            if ch == '-' {
                found_dash = true;
                proof {
                    k = i;
                }
            } else {
                algorithm.push(ch);
                assert(algorithm@ =~= s.take(i + 1));
            }
        } else {
            base64_hash.push(ch);
            assert(base64_hash@ =~= s.subrange(k + 1, i + 1));
        }
    }
    if found_dash {
        proof {
            assert(contains_char(s, '-'));
            let f = first_index_of(s, '-');
            if f < k {
                assert(s[f] != '-');
            }
            if k < f {
                assert(s[k] == '-');
            }
            assert(f == k);
            assert(base64_hash@ =~= s.skip(k + 1));
        }
        DistIntegrity::Integrity { algorithm, base64_hash }
    } else {
        assert(!contains_char(s, '-'));
        DistIntegrity::UnknownIntegrity(integrity.clone())
    }
}

/// Checks a tarball's bytes against the integrity that the registry's dist
/// info gives.
pub fn verify_dist_tarball(package: &str, data: &[u8], dist: &DistInfo) -> (r: Result<(), IntegrityError>)
    ensures
        ({
            let expected = tarball_integrity(
                package@,
                data@,
                dist_integrity_of(dist.shasum@, match &dist.integrity { Some(i) => Some(i@), None => None }),
            );
            &&& r is Ok <==> expected is Ok
            &&& r matches Err(e) ==> expected == Err::<(), _>(e@)
        }),
        dist.integrity is None ==> (r is Ok <==> lower_hex(ring_sha1(data@)) == dist.shasum@),
        dist.integrity matches Some(i) ==> {
            &&& (i@.len() >= 7 && i@.take(7) == "sha512-"@) ==> (r is Ok <==> base64_standard(
                ring_sha512(data@),
            ) == i@.skip(7))
            &&& (i@.len() >= 5 && i@.take(5) == "sha1-"@) ==> (r is Ok <==> base64_standard(
                ring_sha1(data@),
            ) == i@.skip(5))
            &&& !contains_char(i@, '-') ==> r is Err
        },
{
    let integrity = dist_integrity(dist);
    proof {
        reveal_strlit("sha512-");
        reveal_strlit("sha1-");
        reveal_strlit("sha512");
        reveal_strlit("sha1");
        if let Some(i) = &dist.integrity {
            let s = i@;
            if s.len() >= 7 && s.take(7) == "sha512-"@ {
                assert(s.take(7)[6] == '-');
                assert(s[6] == '-');
                assert(contains_char(s, '-'));
                let f = first_index_of(s, '-');
                assert forall|j: int| 0 <= j < 6 implies s[j] != '-' by {
                    assert(s.take(7)[j] == s[j]);
                }
                if f < 6 {
                    assert(s[f] != '-');
                }
                if f > 6 {
                    assert(s[6] == '-');
                }
                assert(f == 6);
                assert(s.take(6) =~= "sha512"@);
            }
            if s.len() >= 5 && s.take(5) == "sha1-"@ {
                assert(s.take(5)[4] == '-');
                assert(s[4] == '-');
                assert(contains_char(s, '-'));
                let f = first_index_of(s, '-');
                assert forall|j: int| 0 <= j < 4 implies s[j] != '-' by {
                    assert(s.take(5)[j] == s[j]);
                }
                if f < 4 {
                    assert(s[f] != '-');
                }
                if f > 4 {
                    assert(s[4] == '-');
                }
                assert(f == 4);
                assert(s.take(4) =~= "sha1"@);
            }
        }
    }
    verify_tarball_integrity(package, data, &integrity)
}

/// What came of one attempt to move the extracted folder into place.
#[derive(Debug, Copy, Clone, PartialEq, Eq, Structural)]
pub enum RenameAttempt {
    /// The rename succeeded.
    Renamed,
    /// It failed because the destination exists: another process put the
    /// package there first.
    DestinationExists,
    /// It failed for another reason.
    Failed,
}

/// What to do after an attempt to move the extracted folder into place.
#[derive(Debug, Copy, Clone, PartialEq, Eq, Structural)]
pub enum RenameAction {
    /// Done: the folder is in place.
    Done,
    /// Remove the temporary folder and report success.
    CleanupAndSucceed,
    /// Remove the temporary folder and report the last error.
    CleanupAndFail,
    /// Sleep this many milliseconds, then try again.
    RetryAfter { sleep_ms: u64 },
}

/// The most failed renames that are retried.
pub const MAX_RENAME_RETRIES: u64 = 5;

/// The retry policy: the failed-attempt count after the attempt, and what to
/// do next. Retries wait 20 ms per failure so far, at most 100 ms.
pub open spec fn rename_step(count: nat, attempt: RenameAttempt) -> (nat, RenameAction) {
    match attempt {
        RenameAttempt::Renamed => (count, RenameAction::Done),
        RenameAttempt::DestinationExists => (count, RenameAction::CleanupAndSucceed),
        RenameAttempt::Failed => {
            let c = count + 1;
            if c > 5 {
                (c, RenameAction::CleanupAndFail)
            } else {
                (c, RenameAction::RetryAfter { sleep_ms: if 20 * c < 100 { (20 * c) as u64 } else { 100 } })
            }
        },
    }
}

/// The retries of a rename into place.
pub struct RenameRetries {
    count: u64,
}

impl View for RenameRetries {
    /// The number of failed attempts so far.
    type V = nat;

    closed spec fn view(&self) -> nat {
        self.count as nat
    }
}

impl RenameRetries {
    pub fn new() -> (r: Self)
        ensures
            r@ == 0,
    {
        RenameRetries { count: 0 }
    }

    /// Decides what follows an attempt. Once an attempt has been answered
    /// with anything but a retry, no further attempt is made.
    pub fn next(&mut self, attempt: RenameAttempt) -> (r: RenameAction)
        requires
            old(self)@ <= MAX_RENAME_RETRIES,
        ensures
            (final(self)@, r) == rename_step(old(self)@, attempt),
            attempt == RenameAttempt::Renamed ==> r == RenameAction::Done && final(self)@ == old(self)@,
            attempt == RenameAttempt::DestinationExists ==> r == RenameAction::CleanupAndSucceed
                && final(self)@ == old(self)@,
            attempt == RenameAttempt::Failed ==> final(self)@ == old(self)@ + 1,
            attempt == RenameAttempt::Failed && old(self)@ == MAX_RENAME_RETRIES ==> r
                == RenameAction::CleanupAndFail,
            attempt == RenameAttempt::Failed && old(self)@ < MAX_RENAME_RETRIES ==> r
                == (RenameAction::RetryAfter {
                sleep_ms: if 20 * (old(self)@ + 1) < 100 { (20 * (old(self)@ + 1)) as u64 } else { 100 },
            }),
    {
        match attempt {
            RenameAttempt::Renamed => RenameAction::Done,
            RenameAttempt::DestinationExists => RenameAction::CleanupAndSucceed,
            RenameAttempt::Failed => {
                self.count = self.count + 1;
                if self.count > MAX_RENAME_RETRIES {
                    RenameAction::CleanupAndFail
                } else {
                    let sleep_ms = if 20 * self.count < 100 { 20 * self.count } else { 100 };
                    RenameAction::RetryAfter { sleep_ms }
                }
            },
        }
    }
}

/// A retry is only ever asked for while at most five attempts have failed,
/// so a rename is attempted at most six times, and each wait lasts from
/// 20 ms to 100 ms.
pub proof fn lemma_rename_retries_bounded(count: nat, attempt: RenameAttempt)
    requires
        count <= MAX_RENAME_RETRIES,
    ensures
        rename_step(count, attempt).1 matches RenameAction::RetryAfter { sleep_ms }
            ==> rename_step(count, attempt).0 <= MAX_RENAME_RETRIES && 20 <= sleep_ms <= 100,
        rename_step(count, attempt).0 <= MAX_RENAME_RETRIES + 1,
        rename_step(count, attempt).0 == MAX_RENAME_RETRIES + 1 ==> rename_step(count, attempt).1
            == RenameAction::CleanupAndFail,
{
}

/// A rename that succeeds, or finds the package already in place, is
/// answered the same whatever number of attempts failed before it: done,
/// or clean up and succeed; only failures count.
pub proof fn lemma_success_ignores_failures(count: nat)
    requires
        count <= MAX_RENAME_RETRIES,
    ensures
        rename_step(count, RenameAttempt::Renamed) == (count, RenameAction::Done),
        rename_step(count, RenameAttempt::DestinationExists) == (count, RenameAction::CleanupAndSucceed),
        rename_step(count, RenameAttempt::Failed).0 == count + 1,
{
}

/// Six failed attempts in a row wait 20, 40, 60, 80 and 100 ms between them
/// and then give up.
pub proof fn lemma_six_failures_give_up()
    ensures
        ({
            let (c1, a1) = rename_step(0, RenameAttempt::Failed);
            let (c2, a2) = rename_step(c1, RenameAttempt::Failed);
            let (c3, a3) = rename_step(c2, RenameAttempt::Failed);
            let (c4, a4) = rename_step(c3, RenameAttempt::Failed);
            let (c5, a5) = rename_step(c4, RenameAttempt::Failed);
            let (c6, a6) = rename_step(c5, RenameAttempt::Failed);
            &&& a1 == RenameAction::RetryAfter { sleep_ms: 20 }
            &&& a2 == RenameAction::RetryAfter { sleep_ms: 40 }
            &&& a3 == RenameAction::RetryAfter { sleep_ms: 60 }
            &&& a4 == RenameAction::RetryAfter { sleep_ms: 80 }
            &&& a5 == RenameAction::RetryAfter { sleep_ms: 100 }
            &&& a6 == RenameAction::CleanupAndFail
        }),
{
}

/// The kind of a tar entry, as far as extraction tells kinds apart.
#[derive(Debug, Copy, Clone, PartialEq, Eq, Structural)]
pub enum TarEntryKind {
    Regular,
    Directory,
    Symlink,
    Link,
    XGlobalHeader,
    Other,
}

/// What is done with an entry's contents.
#[derive(Debug, Copy, Clone, PartialEq, Eq, Structural)]
pub enum EntryAction {
    /// Write the file.
    Unpack,
    /// Links are not extracted; a warning is logged.
    WarnLink,
    /// Nothing.
    Ignore,
}

/// Where an entry goes, as path components.
pub struct EntryPlan {
    /// The entry's path under the output folder.
    pub absolute: Vec<String>,
    /// The directory that must exist for it: the entry itself for a
    /// directory, else its parent.
    pub dir: Vec<String>,
    pub action: EntryAction,
}

/// The action for an entry of this kind.
pub open spec fn entry_action(kind: TarEntryKind) -> EntryAction {
    match kind {
        TarEntryKind::Regular => EntryAction::Unpack,
        TarEntryKind::Symlink | TarEntryKind::Link => EntryAction::WarnLink,
        _ => EntryAction::Ignore,
    }
}

/// The number of components of the output folder joined with an entry's
/// path without its first component.
pub open spec fn joined_len(output_len: nat, entry_len: nat) -> nat {
    if entry_len == 0 {
        output_len
    } else {
        (output_len + entry_len - 1) as nat
    }
}

/// Lays out an entry under the output folder. Global pax headers are
/// skipped. The entry's first path component, `package` or the package's
/// name, is dropped. A file entry needs a parent directory: a path of one
/// component has none, and extraction cannot go on without one.
pub fn plan_entry(output_folder: &Vec<String>, entry_path: &Vec<String>, kind: TarEntryKind)
    -> (r: Option<EntryPlan>)
    requires
        kind != TarEntryKind::Directory && kind != TarEntryKind::XGlobalHeader ==> joined_len(
            output_folder.len() as nat,
            entry_path.len() as nat,
        ) >= 2,
    ensures
        r is None <==> kind == TarEntryKind::XGlobalHeader,
        r matches Some(p) ==> {
            let rel = if entry_path.len() == 0 {
                Seq::<Seq<char>>::empty()
            } else {
                entry_path.deep_view().drop_first()
            };
            let absolute = output_folder.deep_view() + rel;
            &&& p.absolute.deep_view() == absolute
            &&& p.dir.deep_view() == if kind == TarEntryKind::Directory {
                absolute
            } else {
                absolute.drop_last()
            }
            &&& p.action == entry_action(kind)
        },
{
    if kind == TarEntryKind::XGlobalHeader {
        return None;
    }
    let mut absolute: Vec<String> = Vec::new();
    let mut i: usize = 0;
    while i < output_folder.len()
        invariant
            i <= output_folder.len(),
            absolute.deep_view() == output_folder.deep_view().take(i as int),
        decreases output_folder.len() - i,
    {
        absolute.push(output_folder[i].clone());
        proof {
            assert(output_folder.deep_view().take(i + 1) =~= output_folder.deep_view().take(i as int).push(output_folder[i as int]@));
        }
        i = i + 1;
    }
    let ghost base = absolute.deep_view();
    assert(base =~= output_folder.deep_view());
    let ghost rel = if entry_path.len() == 0 {
        Seq::<Seq<char>>::empty()
    } else {
        entry_path.deep_view().drop_first()
    };
    let mut j: usize = 1;
    while j < entry_path.len()
        invariant
            1 <= j,
            entry_path.len() > 0 ==> j <= entry_path.len(),
            entry_path.len() > 0 ==> absolute.deep_view() == base + entry_path.deep_view().subrange(1, j as int),
            entry_path.len() == 0 ==> absolute.deep_view() == base,
        decreases entry_path.len() - j,
    {
        let ghost before = absolute.deep_view();
        absolute.push(entry_path[j].clone());
        proof {
            assert(entry_path.deep_view()[j as int] == entry_path@[j as int]@);
            assert(absolute.deep_view() =~= before.push(entry_path@[j as int]@));
            assert(entry_path.deep_view().subrange(1, j + 1) =~= entry_path.deep_view().subrange(1, j as int).push(entry_path[j as int]@));
        }
        j = j + 1;
    }
    proof {
        if entry_path.len() > 0 {
            assert(entry_path.deep_view().subrange(1, entry_path.len() as int) =~= rel);
        } else {
            assert(base + rel =~= base);
        }
    }
    let mut dir = absolute.clone();
    if kind != TarEntryKind::Directory {
        dir.pop();
    }
    let action = match kind {
        TarEntryKind::Regular => EntryAction::Unpack,
        TarEntryKind::Symlink | TarEntryKind::Link => EntryAction::WarnLink,
        _ => EntryAction::Ignore,
    };
    Some(EntryPlan { absolute, dir, action })
}

/// Whether two paths have the same components.
pub fn same_path(a: &Vec<String>, b: &Vec<String>) -> (r: bool)
    ensures
        r == (a.deep_view() == b.deep_view()),
{
    if a.len() != b.len() {
        proof {
            assert(a.deep_view().len() != b.deep_view().len());
        }
        return false;
    }
    let mut i: usize = 0;
    while i < a.len()
        invariant
            a.len() == b.len(),
            i <= a.len(),
            a.deep_view().take(i as int) == b.deep_view().take(i as int),
        decreases a.len() - i,
    {
        if !same_text(a[i].as_str(), b[i].as_str()) {
            proof {
                assert(a.deep_view()[i as int] != b.deep_view()[i as int]);
            }
            return false;
        }
        proof {
            assert(a.deep_view().take(i + 1) =~= a.deep_view().take(i as int).push(a@[i as int]@));
            assert(b.deep_view().take(i + 1) =~= b.deep_view().take(i as int).push(b@[i as int]@));
        }
        i = i + 1;
    }
    proof {
        assert(a.deep_view().take(a.len() as int) =~= a.deep_view());
        assert(b.deep_view().take(b.len() as int) =~= b.deep_view());
    }
    true
}

/// An entry is always laid out under the output folder, component-wise:
/// only `..` components, resolved when the directory is canonicalized, can
/// lead out of it, which the check on the canonical directory catches.
pub proof fn lemma_plan_under_output(output_folder: Seq<Seq<char>>, rel: Seq<Seq<char>>)
    ensures
        (output_folder + rel).take(output_folder.len() as int) == output_folder,
        rel.len() > 0 ==> (output_folder + rel).drop_last().take(output_folder.len() as int) == output_folder,
{
    assert((output_folder + rel).take(output_folder.len() as int) =~= output_folder);
    if rel.len() > 0 {
        assert((output_folder + rel).drop_last().take(output_folder.len() as int) =~= output_folder);
    }
}

/// Whether `dir` lies in `root`: the components of `root` begin those of
/// `dir`, as `Path::starts_with` compares them.
pub fn is_within(dir: &Vec<String>, root: &Vec<String>) -> (r: bool)
    ensures
        r == (root.len() <= dir.len() && dir.deep_view().take(root.len() as int) == root.deep_view()),
{
    if root.len() > dir.len() {
        return false;
    }
    let mut i: usize = 0;
    while i < root.len()
        invariant
            root.len() <= dir.len(),
            i <= root.len(),
            dir.deep_view().take(i as int) == root.deep_view().take(i as int),
        decreases root.len() - i,
    {
        if !same_text(dir[i].as_str(), root[i].as_str()) {
            proof {
                assert(dir.deep_view().take(root.len() as int)[i as int] != root.deep_view()[i as int]);
            }
            return false;
        }
        proof {
            assert(dir.deep_view().take(i + 1) =~= dir.deep_view().take(i as int).push(dir@[i as int]@));
            assert(root.deep_view().take(i + 1) =~= root.deep_view().take(i as int).push(root@[i as int]@));
        }
        i = i + 1;
    }
    proof {
        assert(root.deep_view().take(root.len() as int) =~= root.deep_view());
    }
    true
}

/// The directories created so far while extracting a tarball.
pub struct CreatedDirs {
    dirs: Vec<Vec<String>>,
}

impl View for CreatedDirs {
    type V = Set<Seq<Seq<char>>>;

    closed spec fn view(&self) -> Set<Seq<Seq<char>>> {
        Set::new(|d: Seq<Seq<char>>| exists|i: int| 0 <= i < self.dirs@.len() && #[trigger] self.dirs@[i].deep_view() == d)
    }
}

impl CreatedDirs {
    pub fn new() -> (r: Self)
        ensures
            r@ == Set::<Seq<Seq<char>>>::empty(),
    {
        let r = CreatedDirs { dirs: Vec::new() };
        assert(r@ =~= Set::<Seq<Seq<char>>>::empty());
        r
    }

    /// Notes a directory; answers whether it was new, in which case it must
    /// be created and checked.
    pub fn insert(&mut self, dir: Vec<String>) -> (r: bool)
        ensures
            r == !old(self)@.contains(dir.deep_view()),
            final(self)@ == old(self)@.insert(dir.deep_view()),
    {
        let mut i: usize = 0;
        while i < self.dirs.len()
            invariant
                i <= self.dirs@.len(),
                forall|k: int| 0 <= k < i ==> #[trigger] self.dirs@[k].deep_view() != dir.deep_view(),
            decreases self.dirs@.len() - i,
        {
            if same_path(&self.dirs[i], &dir) {
                proof {
                    assert(self@.contains(dir.deep_view()));
                    assert(self@.insert(dir.deep_view()) =~= self@);
                }
                return false;
            }
            i = i + 1;
        }
        let ghost old_view = self@;
        let ghost old_dirs = self.dirs@;
        let ghost d = dir.deep_view();
        self.dirs.push(dir);
        proof {
            assert(self.dirs@ == old_dirs.push(dir));
            assert forall|x: Seq<Seq<char>>| self@.contains(x) <==> old_view.insert(d).contains(x) by {
                if self@.contains(x) {
                    let k = choose|k: int| 0 <= k < self.dirs@.len() && #[trigger] self.dirs@[k].deep_view() == x;
                    if k < old_dirs.len() {
                        assert(old_dirs[k].deep_view() == x);
                        assert(old_view.contains(x));
                    }
                }
                if old_view.contains(x) {
                    let k = choose|k: int| 0 <= k < old_dirs.len() && #[trigger] old_dirs[k].deep_view() == x;
                    assert(self.dirs@[k].deep_view() == x);
                }
                if x == d {
                    assert(self.dirs@[old_dirs.len() as int].deep_view() == x);
                }
            }
            assert(self@ =~= old_view.insert(d));
        }
        true
    }
}

} // verus!
