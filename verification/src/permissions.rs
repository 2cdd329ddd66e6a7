//! Warnings about database files that other users can reach.
//!
//! Reading modes and ACLs is left to the caller; the decisions here say which files
//! are checked, when a Unix mode is too open, and what each warning holds.
use vstd::prelude::*;

pub use crate::outcome::{Warning, WarningDetails};
use crate::text::owned;

verus! {

/// The database file and the SQLite sidecars that can hold its data.
pub fn database_storage_files(path: &str) -> (r: Vec<String>)
    ensures
        r@.map_values(|s: String| s@) == seq![path@, path@ + "-wal"@, path@ + "-shm"@],
{
    let v = vec![owned(path), owned(path).concat("-wal"), owned(path).concat("-shm")];
    assert(v@.map_values(|s: String| s@) =~= seq![path@, path@ + "-wal"@, path@ + "-shm"@]);
    v
}

/// What a mode is checked on.
#[derive(Debug, Clone, Copy, PartialEq, Eq, Structural)]
pub enum ModeTarget {
    /// The directory that holds the database.
    ParentDirectory,
    /// The database file or one of its sidecars.
    StorageFile,
}

pub open spec fn insecure_code() -> Seq<char> {
    "INSECURE_DATABASE_PERMISSIONS"@
}

pub open spec fn mode_message(target: ModeTarget) -> Seq<char> {
    match target {
        ModeTarget::ParentDirectory => "the database parent directory is accessible to other users"@,
        ModeTarget::StorageFile => "the database file or sidecar is accessible to other users"@,
    }
}

pub open spec fn octal_digit(n: int) -> char {
    if n == 0 { '0' } else if n == 1 { '1' } else if n == 2 { '2' } else if n == 3 { '3' }
    else if n == 4 { '4' } else if n == 5 { '5' } else if n == 6 { '6' } else { '7' }
}

/// Four octal digits of a permission value below `0o10000`, zero-padded.
pub open spec fn octal4(m: int) -> Seq<char> {
    seq![octal_digit(m / 512), octal_digit((m / 64) % 8), octal_digit((m / 8) % 8), octal_digit(m % 8)]
}

fn octal_digit_exec(n: u32) -> (c: char)
    requires
        n < 8,
    ensures
        c == octal_digit(n as int),
{
    match n {
        0 => '0',
        1 => '1',
        2 => '2',
        3 => '3',
        4 => '4',
        5 => '5',
        6 => '6',
        _ => '7',
    }
}

/// The permission bits of a Unix mode.
pub open spec fn permission_bits(mode: u32) -> u32 {
    mode & 0o777u32
}

/// Whether permission bits grant any access to the group or to others.
pub open spec fn open_to_others(bits: u32) -> bool {
    bits & 0o077u32 != 0
}

/// `w` reports that `path` is reachable by other users, with its permission bits.
pub open spec fn is_mode_warning(w: Warning, path: Seq<char>, target: ModeTarget, bits: u32) -> bool {
    &&& w.code@ == insecure_code()
    &&& w.message@ == mode_message(target)
    &&& w.details matches WarningDetails::Mode { path: p, mode: m }
    &&& p@ == path
    &&& m@ == octal4(bits as int)
}

/// The warning for a Unix mode that lets other users reach a database path, `None`
/// when only the owner has access.
pub fn mode_warning(path: &str, mode: u32, target: ModeTarget) -> (r: Option<Warning>)
    ensures
        !open_to_others(permission_bits(mode)) ==> r is None,
        open_to_others(permission_bits(mode)) ==> (r matches Some(w) && is_mode_warning(
            w,
            path@,
            target,
            permission_bits(mode),
        )),
{
    let bits = mode & 0o777u32;
    if bits & 0o077u32 == 0 {
        return None;
    }
    assert(mode & 0o777u32 <= 0o777u32) by (bit_vector);
    let mut digits: Vec<char> = Vec::new();
    digits.push(octal_digit_exec(bits / 512));
    digits.push(octal_digit_exec((bits / 64) % 8));
    digits.push(octal_digit_exec((bits / 8) % 8));
    digits.push(octal_digit_exec(bits % 8));
    assert(digits@ =~= octal4(bits as int));
    let message = match target {
        ModeTarget::ParentDirectory => "the database parent directory is accessible to other users",
        ModeTarget::StorageFile => "the database file or sidecar is accessible to other users",
    };
    Some(
        Warning {
            code: owned("INSECURE_DATABASE_PERMISSIONS"),
            message: owned(message),
            details: WarningDetails::Mode {
                path: owned(path),
                mode: crate::text::string_from_chars(digits.as_slice()),
            },
        },
    )
}

/// A mode is reported exactly when its permission bits grant the group or others
/// anything: some group bit (read, write or execute, the second-to-last octal digit)
/// or some other-users bit (the last octal digit) is set. A mode granting only its
/// owner access is never reported.
pub proof fn law_group_or_other_access_is_reported(mode: u32)
    ensures
        open_to_others(permission_bits(mode)) <==> (mode & 0o070u32 != 0 || mode & 0o007u32 != 0),
        open_to_others(permission_bits(mode)) <==> ((mode / 8) % 8 != 0 || mode % 8 != 0),
{
    assert((mode & 0o777u32) & 0o077u32 != 0 <==> (mode & 0o070u32 != 0 || mode & 0o007u32 != 0))
        by (bit_vector);
    assert((mode & 0o777u32) & 0o077u32 != 0 <==> ((mode / 8) % 8 != 0 || mode % 8 != 0))
        by (bit_vector);
}

/// The mode text of a warning is the permission bits in octal: four digits `0` to `7`
/// whose place values (512, 64, 8, 1) add up to the bits.
pub proof fn law_mode_text_is_octal(bits: u32)
    requires
        bits <= 0o777u32,
    ensures
        octal4(bits as int).len() == 4,
        forall|k: int| 0 <= k < 4 ==> '0' <= #[trigger] octal4(bits as int)[k] && octal4(bits as int)[k] <= '7',
        (octal4(bits as int)[0] as int - 48) * 512 + (octal4(bits as int)[1] as int - 48) * 64 + (
        octal4(bits as int)[2] as int - 48) * 8 + (octal4(bits as int)[3] as int - 48) == bits,
{
    let m = bits as int;
    let o = octal4(m);
    assert(0 <= m / 512 < 8);
    assert forall|n: int| 0 <= n < 8 implies (#[trigger] octal_digit(n)) as int - 48 == n by {}
    assert(o[0] as int - 48 == m / 512);
    assert(o[1] as int - 48 == (m / 64) % 8);
    assert(o[2] as int - 48 == (m / 8) % 8);
    assert(o[3] as int - 48 == m % 8);
    assert((m / 512) * 512 + ((m / 64) % 8) * 64 + ((m / 8) % 8) * 8 + m % 8 == m) by (nonlinear_arith)
        requires
            0 <= m <= 511,
    ;
}

/// The warning for a database path whose permissions could not be verified.
pub fn permission_check_warning(path: &str, reason: &str) -> (w: Warning)
    ensures
        w.code@ == insecure_code(),
        w.message@ == "taskctl could not verify the database permissions"@,
        w.details matches WarningDetails::Reason { path: p, reason: q } && p@ == path@ && q@
            == reason@,
{
    Warning {
        code: owned("INSECURE_DATABASE_PERMISSIONS"),
        message: owned("taskctl could not verify the database permissions"),
        details: WarningDetails::Reason { path: owned(path), reason: owned(reason) },
    }
}

/// The warning for a custom database on Windows, whose parent directory ACL is not
/// managed here; `parent` is that directory when it could be determined.
pub fn custom_database_warning(parent: Option<&str>) -> (w: Warning)
    ensures
        w.code@ == insecure_code(),
        w.message@ == "the custom database parent directory is not managed by taskctl"@,
        w.details matches WarningDetails::Custom { path: p, reason: q } && q@
            == "custom parent directory ACL may allow database replacement"@ && match parent {
            Some(a) => p matches Some(b) && b@ == a@,
            None => p is None,
        },
{
    let path = match parent {
        Some(a) => Some(owned(a)),
        None => None,
    };
    Warning {
        code: owned("INSECURE_DATABASE_PERMISSIONS"),
        message: owned("the custom database parent directory is not managed by taskctl"),
        details: WarningDetails::Custom {
            path,
            reason: owned("custom parent directory ACL may allow database replacement"),
        },
    }
}

} // verus!
