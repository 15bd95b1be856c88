//! Cache layout, package identifiers, keys and scratch names, and the
//! symlink and error checks of the content-addressable store.

use vstd::prelude::*;
use vstd::string::StringSliceAdditionalSpecFns;
use crate::text::{
    chars_of, digit_char, hex_bytes, hex_fixed, is_hex_digit, lemma_hex_fixed_shape, push_hex_fixed,
    push_str, to_hex_lower,
};

verus! {

/// When the cache goes to the network.
#[derive(Debug, Clone, Copy, PartialEq, Eq, Hash, Structural)]
pub enum Refresh {
    /// Use a valid cached package; fetch otherwise.
    Default,
    /// Always fetch.
    Force,
    /// Never fetch.
    Offline,
}

/// Whether installed packages are flushed to disk.
#[derive(Debug, Clone, Copy, PartialEq, Eq, Structural)]
pub enum Durability {
    /// Leave flushing to the operating system.
    NoSync,
    /// Flush each installed package and its parent directory.
    Flush,
}

/// How files are placed into the store.
#[derive(Debug, Clone, Copy, PartialEq, Eq, Structural)]
pub enum LinkStrategy {
    Reflink,
    Hardlink,
    Copy,
}

/// The class of an error, as std's `io::ErrorKind` names it.
#[derive(Debug, Clone, Copy, PartialEq, Eq, Structural)]
pub enum ErrorClass {
    InvalidInput,
    InvalidData,
    NotFound,
}

/// The errors that the cache's own checks raise.
#[derive(Debug, Clone, PartialEq, Eq)]
pub enum CacheError {
    /// The package identifier is empty.
    EmptyPackageId,
    /// The package identifier, which holds a character that paths forbid.
    InvalidPackageId(String),
    /// A symlink climbs out of the directory being copied.
    PathTraversal,
    /// A symlink is absolute.
    AbsoluteSymlink,
    /// The package identifier of a package that offline mode cannot find.
    NotFoundOffline(String),
}

/// Directory under the cache root that holds the lock files.
pub const LOCKS_DIR: &'static str = "locks";
/// Directory under the cache root that holds the packages.
pub const STORE_DIR: &'static str = "store";
/// File whose presence marks a package directory as complete.
pub const COMPLETION_MARKER: &'static str = ".complete";

/// The class of each error.
pub open spec fn class_of(e: CacheError) -> ErrorClass {
    match e {
        CacheError::EmptyPackageId | CacheError::InvalidPackageId(_) => ErrorClass::InvalidInput,
        CacheError::PathTraversal | CacheError::AbsoluteSymlink => ErrorClass::InvalidData,
        CacheError::NotFoundOffline(_) => ErrorClass::NotFound,
    }
}

/// The message of each error.
pub open spec fn message_of(e: CacheError) -> Seq<char> {
    match e {
        CacheError::EmptyPackageId => "Package ID cant be empty"@,
        CacheError::InvalidPackageId(id) => "Invalid package ID: '"@ + id@ + "'"@,
        CacheError::PathTraversal => "Path traversal symlink forbidden"@,
        CacheError::AbsoluteSymlink => "Absolute symlinks forbidden"@,
        CacheError::NotFoundOffline(id) => "Package '"@ + id@ + "' not found in offline mode."@,
    }
}

impl CacheError {
    /// The error's class.
    pub fn class(&self) -> (c: ErrorClass)
        ensures
            c == class_of(*self),
    {
        match self {
            CacheError::EmptyPackageId | CacheError::InvalidPackageId(_) => ErrorClass::InvalidInput,
            CacheError::PathTraversal | CacheError::AbsoluteSymlink => ErrorClass::InvalidData,
            CacheError::NotFoundOffline(_) => ErrorClass::NotFound,
        }
    }

    /// The error's message.
    pub fn message(&self) -> (m: String)
        ensures
            m@ == message_of(*self),
    {
        match self {
            CacheError::EmptyPackageId => {
                proof {
                    reveal_strlit("Package ID cant be empty");
                }
                String::from_str("Package ID cant be empty")
            },
            CacheError::InvalidPackageId(id) => {
                let mut m = String::from_str("Invalid package ID: '");
                push_str(&mut m, id.as_str());
                push_str(&mut m, "'");
                m
            },
            CacheError::PathTraversal => String::from_str("Path traversal symlink forbidden"),
            CacheError::AbsoluteSymlink => String::from_str("Absolute symlinks forbidden"),
            CacheError::NotFoundOffline(id) => {
                let mut m = String::from_str("Package '");
                push_str(&mut m, id.as_str());
                push_str(&mut m, "' not found in offline mode.");
                m
            },
        }
    }
}

/// Characters that may not stand in a package identifier.
pub open spec fn forbidden_char(c: char) -> bool {
    c == '/' || c == '\\' || c == ':' || c == '*' || c == '?' || c == '"' || c == '<' || c == '>'
        || c == '|'
}

/// `id` is non-empty and holds no forbidden character.
pub open spec fn valid_package_id(id: Seq<char>) -> bool {
    id.len() > 0 && forall|i: int| 0 <= i < id.len() ==> !forbidden_char(#[trigger] id[i])
}

fn is_forbidden(c: char) -> (b: bool)
    ensures
        b == forbidden_char(c),
{
    c == '/' || c == '\\' || c == ':' || c == '*' || c == '?' || c == '"' || c == '<' || c == '>'
        || c == '|'
}

/// Checks that a package identifier can name a file: it must be non-empty and
/// hold none of `/ \ : * ? " < > |`.
pub fn validate_package_id(package_id: &str) -> (r: Result<(), CacheError>)
    ensures
        package_id@.len() == 0 ==> r == Err::<(), CacheError>(CacheError::EmptyPackageId),
        package_id@.len() > 0 && !valid_package_id(package_id@) ==> (r matches Err(
            CacheError::InvalidPackageId(s),
        ) && s@ == package_id@),
        valid_package_id(package_id@) ==> r is Ok,
{
    let cs = chars_of(package_id);
    if cs.len() == 0 {
        return Err(CacheError::EmptyPackageId);
    }
    let mut i: usize = 0;
    while i < cs.len()
        invariant
            cs@ == package_id@,
            i <= cs@.len(),
            forall|k: int| 0 <= k < i ==> !forbidden_char(#[trigger] cs@[k]),
        decreases cs@.len() - i,
    {
        if is_forbidden(cs[i]) {
            return Err(CacheError::InvalidPackageId(String::from_str(package_id)));
        }
        i = i + 1;
    }
    Ok(())
}

/// A package identifier is accepted exactly when it is non-empty and holds
/// none of the nine characters `/ \ : * ? " < > |`; every other character,
/// such as `-`, `@`, `.` or a letter, may appear anywhere in it.
pub proof fn lemma_package_id_characters(id: Seq<char>)
    ensures
        valid_package_id(id) <==> (id.len() > 0 && forall|i: int|
            0 <= i < id.len() ==> {
                let c = #[trigger] id[i];
                c != '/' && c != '\\' && c != ':' && c != '*' && c != '?' && c != '"' && c != '<'
                    && c != '>' && c != '|'
            }),
{
}

/// An identifier of one character is accepted exactly when that character
/// is not one of `/ \ : * ? " < > |`.
pub proof fn lemma_single_character_ids(c: char)
    ensures
        valid_package_id(seq![c]) <==> !(c == '/' || c == '\\' || c == ':' || c == '*' || c == '?'
            || c == '"' || c == '<' || c == '>' || c == '|'),
{
    assert(seq![c][0] == c);
}

/// The BLAKE3 digest of a byte sequence.
pub uninterp spec fn blake3_digest(input: Seq<u8>) -> Seq<u8>;

/// Trusted: `blake3::hash`, the 32-byte BLAKE3 hash of `input`, taken out as
/// bytes with `Hash::as_bytes`. The contract names the digest and states its
/// length, which the crate fixes at `OUT_LEN == 32`.
#[verifier::external_body]
fn blake3_hash(input: &[u8]) -> (d: Vec<u8>)
    ensures
        d@ == blake3_digest(input@),
        d@.len() == 32,
{
    blake3::hash(input).as_bytes().to_vec()
}

/// The key of a package: the lower-case hexadecimal BLAKE3 hash of its
/// identifier's UTF-8 bytes.
pub open spec fn key_of(package_id: &str) -> Seq<char> {
    hex_bytes(blake3_digest(package_id.spec_bytes()))
}

/// The store key of a package.
pub fn package_key(package_id: &str) -> (key: String)
    ensures
        key@ == key_of(package_id),
        key@.len() == 64,
{
    let digest = blake3_hash(package_id.as_bytes());
    let key = to_hex_lower(digest.as_slice());
    proof {
        lemma_hex_bytes_len(digest@);
    }
    key
}

/// Hexadecimal rendering doubles the length.
pub proof fn lemma_hex_bytes_len(b: Seq<u8>)
    ensures
        hex_bytes(b).len() == 2 * b.len(),
    decreases b.len(),
{
    if b.len() > 0 {
        lemma_hex_bytes_len(b.drop_last());
    }
}

/// Every character of a hexadecimal rendering is a hexadecimal digit, so a
/// key never holds a character that a package identifier may not hold.
pub proof fn lemma_hex_bytes_digits(b: Seq<u8>)
    ensures
        forall|i: int| 0 <= i < hex_bytes(b).len() ==> is_hex_digit(#[trigger] hex_bytes(b)[i]),
        forall|i: int| 0 <= i < hex_bytes(b).len() ==> !forbidden_char(#[trigger] hex_bytes(b)[i]),
    decreases b.len(),
{
    if b.len() > 0 {
        lemma_hex_bytes_digits(b.drop_last());
        let hi = (b.last() / 16) as nat;
        let lo = (b.last() % 16) as nat;
        assert(hex_bytes(b) == hex_bytes(b.drop_last()) + seq![digit_char(hi), digit_char(lo)]);
        assert(is_hex_digit(digit_char(hi)));
        assert(is_hex_digit(digit_char(lo)));
    }
}

/// A package key holds only lower-case hexadecimal digits, so it never holds
/// a character that a file name may not hold.
pub proof fn lemma_key_is_plain_name(package_id: &str)
    ensures
        forall|i: int| 0 <= i < key_of(package_id).len() ==> is_hex_digit(#[trigger] key_of(package_id)[i]),
        forall|i: int| 0 <= i < key_of(package_id).len() ==> !forbidden_char(#[trigger] key_of(package_id)[i]),
{
    lemma_hex_bytes_digits(blake3_digest(package_id.spec_bytes()));
}

/// Trusted: `rand::random::<u64>()`, a value drawn from the thread-local
/// generator. Any `u64` may come back, so nothing is stated of it.
#[verifier::external_body]
fn random_u64() -> u64 {
    rand::random::<u64>()
}

/// The suffix that names scratch files: the value in 16 lower-case
/// hexadecimal digits, zero-padded (`{:016x}`).
pub fn suffix_of(x: u64) -> (s: String)
    ensures
        s@ == hex_fixed(x as nat, 16),
        s@.len() == 16,
        forall|i: int| 0 <= i < 16 ==> is_hex_digit(#[trigger] s@[i]),
{
    let mut s = String::new();
    push_hex_fixed(&mut s, x, 16);
    proof {
        lemma_hex_fixed_shape(x as nat, 16);
    }
    s
}

/// A fresh random suffix for scratch names: 16 lower-case hexadecimal digits.
pub fn random_suffix() -> (s: String)
    ensures
        exists|x: u64| s@ == hex_fixed(x as nat, 16),
        s@.len() == 16,
        forall|i: int| 0 <= i < 16 ==> is_hex_digit(#[trigger] s@[i]),
{
    let x = random_u64();
    suffix_of(x)
}

/// The scratch entries that the store creates beside packages.
#[derive(Debug, Clone, Copy, PartialEq, Eq, Structural)]
pub enum ScratchKind {
    /// A directory a package is fetched into.
    Staging,
    /// A name a damaged package is moved to before removal.
    Trash,
    /// A copy made when a rename would cross devices.
    Temp,
    /// The source file of the link-strategy probe.
    ProbeSource,
    /// The target file of the link-strategy probe.
    ProbeTarget,
}

/// The prefix of each scratch name.
pub open spec fn scratch_prefix(kind: ScratchKind) -> Seq<char> {
    match kind {
        ScratchKind::Staging => ".staging_"@,
        ScratchKind::Trash => ".trash_"@,
        ScratchKind::Temp => ".tmp_"@,
        ScratchKind::ProbeSource => ".probe_src_"@,
        ScratchKind::ProbeTarget => ".probe_dst_"@,
    }
}

/// The file name of a scratch entry: its prefix, then the suffix.
pub fn scratch_name(kind: ScratchKind, suffix: &str) -> (name: String)
    ensures
        name@ == scratch_prefix(kind) + suffix@,
{
    let mut name = match kind {
        ScratchKind::Staging => String::from_str(".staging_"),
        ScratchKind::Trash => String::from_str(".trash_"),
        ScratchKind::Temp => String::from_str(".tmp_"),
        ScratchKind::ProbeSource => String::from_str(".probe_src_"),
        ScratchKind::ProbeTarget => String::from_str(".probe_dst_"),
    };
    push_str(&mut name, suffix);
    name
}

/// The name a path is renamed to before it is removed:
/// `.trash_{file name}_{suffix}`.
pub fn removal_trash_name(file_name: &str, suffix: &str) -> (name: String)
    ensures
        name@ == ".trash_"@ + file_name@ + "_"@ + suffix@,
{
    let mut name = String::from_str(".trash_");
    push_str(&mut name, file_name);
    push_str(&mut name, "_");
    push_str(&mut name, suffix);
    name
}

/// The lock file of the package with key `key`: `{key}.lock`.
pub fn lock_file_name(key: &str) -> (name: String)
    ensures
        name@ == key@ + ".lock"@,
{
    let mut name = String::from_str(key);
    push_str(&mut name, ".lock");
    name
}

/// Package directories and scratch entries never share a name: a package's
/// key is made of hexadecimal digits, while every scratch name starts with
/// a dot.
pub proof fn lemma_keys_never_collide_with_scratch(package_id: &str, kind: ScratchKind, suffix: Seq<char>)
    ensures
        key_of(package_id) != scratch_prefix(kind) + suffix,
{
    reveal_strlit(".staging_");
    reveal_strlit(".trash_");
    reveal_strlit(".tmp_");
    reveal_strlit(".probe_src_");
    reveal_strlit(".probe_dst_");
    lemma_key_is_plain_name(package_id);
    let name = scratch_prefix(kind) + suffix;
    assert(name[0] == '.');
    if key_of(package_id).len() > 0 {
        assert(is_hex_digit(key_of(package_id)[0]));
    }
}

/// The error that offline mode raises for a package it cannot find.
pub fn offline_not_found(package_id: &str) -> (e: CacheError)
    ensures
        e matches CacheError::NotFoundOffline(id) && id@ == package_id@,
{
    CacheError::NotFoundOffline(String::from_str(package_id))
}

/// One component of a symlink's target path.
#[derive(Debug, Clone, Copy, PartialEq, Eq, Structural)]
pub enum PathComponent {
    /// A Windows drive or share prefix.
    Prefix,
    /// The root directory.
    RootDir,
    /// `.`
    CurDir,
    /// `..`
    ParentDir,
    /// Any other name.
    Normal,
}

/// Following `comps` from `depth` levels below the copied root: the depth
/// reached, or the first error met.
pub open spec fn symlink_walk(depth: int, comps: Seq<PathComponent>) -> Result<int, CacheError>
    decreases comps.len(),
{
    if comps.len() == 0 {
        Ok(depth)
    } else {
        match comps[0] {
            PathComponent::Normal => symlink_walk(depth + 1, comps.drop_first()),
            PathComponent::ParentDir => if depth == 0 {
                Err(CacheError::PathTraversal)
            } else {
                symlink_walk(depth - 1, comps.drop_first())
            },
            PathComponent::CurDir => symlink_walk(depth, comps.drop_first()),
            PathComponent::RootDir | PathComponent::Prefix => Err(CacheError::AbsoluteSymlink),
        }
    }
}

/// Checks a symlink's target, given as its components, for a link that sits
/// `starting_depth` directories below the root being copied: the target may
/// not be absolute and may not climb above that root.
pub fn validate_symlink_target(starting_depth: i32, components: &Vec<PathComponent>) -> (r: Result<
    (),
    CacheError,
>)
    requires
        i32::MIN + components@.len() <= starting_depth,
        starting_depth + components@.len() <= i32::MAX,
    ensures
        r is Ok <==> symlink_walk(starting_depth as int, components@) is Ok,
        r matches Err(e) ==> symlink_walk(starting_depth as int, components@) == Err::<int, CacheError>(e),
{
    let mut depth = starting_depth;
    let mut i: usize = 0;
    assert(components@.skip(0) =~= components@);
    while i < components.len()
        invariant
            i <= components@.len(),
            i32::MIN + components@.len() <= starting_depth,
            starting_depth + components@.len() <= i32::MAX,
            starting_depth - i <= depth <= starting_depth + i,
            symlink_walk(starting_depth as int, components@) == symlink_walk(
                depth as int,
                components@.skip(i as int),
            ),
        decreases components@.len() - i,
    {
        assert(components@.skip(i as int).drop_first() =~= components@.skip(i as int + 1));
        match components[i] {
            PathComponent::Normal => {
                depth = depth + 1;
            },
            PathComponent::ParentDir => {
                if depth == 0 {
                    return Err(CacheError::PathTraversal);
                }
                depth = depth - 1;
            },
            PathComponent::CurDir => {},
            PathComponent::RootDir | PathComponent::Prefix => {
                return Err(CacheError::AbsoluteSymlink);
            },
        }
        i = i + 1;
    }
    Ok(())
}

/// An accepted target stays accepted when the link sits one level deeper.
pub proof fn lemma_symlink_deeper_still_accepted(depth: int, comps: Seq<PathComponent>)
    requires
        depth >= 0,
        symlink_walk(depth, comps) is Ok,
    ensures
        symlink_walk(depth + 1, comps) is Ok,
        symlink_walk(depth + 1, comps)->Ok_0 == symlink_walk(depth, comps)->Ok_0 + 1,
    decreases comps.len(),
{
    if comps.len() > 0 {
        match comps[0] {
            PathComponent::Normal => lemma_symlink_deeper_still_accepted(depth + 1, comps.drop_first()),
            PathComponent::ParentDir => lemma_symlink_deeper_still_accepted(depth - 1, comps.drop_first()),
            PathComponent::CurDir => lemma_symlink_deeper_still_accepted(depth, comps.drop_first()),
            _ => {},
        }
    }
}

/// Following an accepted target from a link inside the copied root never
/// leaves that root: every prefix of the target is accepted too, and ends at
/// a depth of zero or more.
pub proof fn lemma_symlink_stays_inside(depth: int, comps: Seq<PathComponent>, k: int)
    requires
        depth >= 0,
        0 <= k <= comps.len(),
        symlink_walk(depth, comps) is Ok,
    ensures
        symlink_walk(depth, comps.take(k)) is Ok,
        symlink_walk(depth, comps.take(k))->Ok_0 >= 0,
    decreases comps.len(),
{
    if k > 0 {
        assert(comps.take(k).drop_first() =~= comps.drop_first().take(k - 1));
        match comps[0] {
            PathComponent::Normal => lemma_symlink_stays_inside(depth + 1, comps.drop_first(), k - 1),
            PathComponent::ParentDir => lemma_symlink_stays_inside(depth - 1, comps.drop_first(), k - 1),
            PathComponent::CurDir => lemma_symlink_stays_inside(depth, comps.drop_first(), k - 1),
            _ => {},
        }
    }
}

/// The change of depth that one component of a target makes: a name goes
/// one level down, `..` one level up, and `.` (or anything else) stays.
pub open spec fn component_step(c: PathComponent) -> int {
    match c {
        PathComponent::Normal => 1,
        PathComponent::ParentDir => -1,
        _ => 0,
    }
}

/// The net change of depth along a sequence of components.
pub open spec fn net_depth(comps: Seq<PathComponent>) -> int
    decreases comps.len(),
{
    if comps.len() == 0 {
        0
    } else {
        component_step(comps[0]) + net_depth(comps.drop_first())
    }
}

proof fn lemma_net_depth_take(comps: Seq<PathComponent>, k: int)
    requires
        1 <= k <= comps.len(),
    ensures
        net_depth(comps.take(k)) == component_step(comps[0]) + net_depth(comps.drop_first().take(k - 1)),
{
    assert(comps.take(k).drop_first() =~= comps.drop_first().take(k - 1));
}

/// A symlink target is accepted exactly when none of its components is a
/// root or a drive prefix and no prefix of it climbs above the copied root
/// (the link's depth plus the prefix's net change never goes below zero);
/// an accepted target ends at the link's depth plus its net change.
pub proof fn lemma_symlink_acceptance(depth: int, comps: Seq<PathComponent>)
    requires
        depth >= 0,
    ensures
        symlink_walk(depth, comps) is Ok <==> ((forall|i: int|
            0 <= i < comps.len() ==> #[trigger] comps[i] != PathComponent::RootDir && comps[i]
                != PathComponent::Prefix) && forall|k: int|
            0 <= k <= comps.len() ==> depth + net_depth(#[trigger] comps.take(k)) >= 0),
        symlink_walk(depth, comps) is Ok ==> symlink_walk(depth, comps)->Ok_0 == depth + net_depth(
            comps,
        ),
    decreases comps.len(),
{
    assert(comps.take(0) =~= Seq::<PathComponent>::empty());
    if comps.len() > 0 {
        let c = comps[0];
        let rest = comps.drop_first();
        let d2 = depth + component_step(c);
        assert forall|k: int| 1 <= k <= comps.len() implies net_depth(#[trigger] comps.take(k))
            == component_step(c) + net_depth(rest.take(k - 1)) by {
            lemma_net_depth_take(comps, k);
        }
        assert(forall|i: int| 0 <= i < rest.len() ==> rest[i] == comps[i + 1]);
        if c == PathComponent::RootDir || c == PathComponent::Prefix {
            assert(!(comps[0] != PathComponent::RootDir && comps[0] != PathComponent::Prefix));
        } else if c == PathComponent::ParentDir && depth == 0 {
            assert(net_depth(comps.take(1)) == -1 + net_depth(rest.take(0)));
            assert(rest.take(0) =~= Seq::<PathComponent>::empty());
            assert(depth + net_depth(comps.take(1)) < 0);
        } else {
            lemma_symlink_acceptance(d2, rest);
            assert(symlink_walk(depth, comps) == symlink_walk(d2, rest));
            if (forall|i: int|
                0 <= i < comps.len() ==> #[trigger] comps[i] != PathComponent::RootDir && comps[i]
                    != PathComponent::Prefix) && (forall|k: int|
                0 <= k <= comps.len() ==> depth + net_depth(#[trigger] comps.take(k)) >= 0) {
                assert forall|i: int| 0 <= i < rest.len() implies #[trigger] rest[i]
                    != PathComponent::RootDir && rest[i] != PathComponent::Prefix by {
                    assert(comps[i + 1] != PathComponent::RootDir && comps[i + 1] != PathComponent::Prefix);
                }
                assert forall|k: int| 0 <= k <= rest.len() implies d2 + net_depth(
                    #[trigger] rest.take(k),
                ) >= 0 by {
                    assert(depth + net_depth(comps.take(k + 1)) >= 0);
                }
            }
            if symlink_walk(d2, rest) is Ok {
                assert forall|i: int| 0 <= i < comps.len() implies #[trigger] comps[i]
                    != PathComponent::RootDir && comps[i] != PathComponent::Prefix by {
                    if i > 0 {
                        assert(rest[i - 1] != PathComponent::RootDir && rest[i - 1] != PathComponent::Prefix);
                    }
                }
                assert forall|k: int| 0 <= k <= comps.len() implies depth + net_depth(
                    #[trigger] comps.take(k),
                ) >= 0 by {
                    if k > 0 {
                        assert(d2 + net_depth(rest.take(k - 1)) >= 0);
                    }
                }
            }
        }
    }
}

/// The family of operating system the tool runs on.
#[derive(Debug, Clone, Copy, PartialEq, Eq, Structural)]
pub enum Platform {
    Unix,
    Windows,
    Other,
}

/// The OS error code that marks a rename across devices on a platform:
/// `EXDEV` (18) on Unix, `ERROR_NOT_SAME_DEVICE` (17) on Windows; none
/// elsewhere.
pub open spec fn cross_device_code(platform: Platform) -> Option<i32> {
    match platform {
        Platform::Unix => Some(18i32),
        Platform::Windows => Some(17i32),
        Platform::Other => None,
    }
}

/// An I/O error means that a rename crossed devices: its kind is
/// `CrossesDevices`, or its OS code is the platform's cross-device code.
pub fn is_cross_device_error(kind_crosses_devices: bool, raw_os_error: Option<i32>, platform: Platform) -> (b: bool)
    ensures
        b == (kind_crosses_devices || (cross_device_code(platform) is Some && raw_os_error
            == cross_device_code(platform))),
{
    if kind_crosses_devices {
        return true;
    }
    match (raw_os_error, platform) {
        (Some(code), Platform::Unix) => code == 18,
        (Some(code), Platform::Windows) => code == 17,
        _ => false,
    }
}

/// A failed directory flush is ignored when the OS answered `EINVAL` (22),
/// as file systems that cannot flush directories do.
pub fn is_ignored_sync_error(raw_os_error: Option<i32>) -> (b: bool)
    ensures
        b == (raw_os_error == Some(22i32)),
{
    match raw_os_error {
        Some(code) => code == 22,
        None => false,
    }
}

} // verus!
