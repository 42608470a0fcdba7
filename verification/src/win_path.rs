//! Rewriting Windows verbatim path prefixes for the shell parser.
//!
//! The shell's display-name parser rejects verbatim prefixes, so they are
//! rewritten into their traditional equivalents before the path is handed
//! over: `\\?\UNC\server\share\...` becomes `\\server\share\...`, a verbatim
//! disk prefix `\\?\C:\...` becomes `C:\...`, any other verbatim prefix
//! `\\?\name\...` becomes `\\name\...`, and every non-verbatim path passes
//! through unchanged.

use vstd::prelude::*;
use vstd::string::StrSliceExecFns;
use vstd::string::StringExecFns;

verus! {

/// The verbatim prefix `\\?\`.
pub open spec fn verbatim_prefix() -> Seq<char> {
    seq!['\\', '\\', '?', '\\']
}

/// The verbatim UNC prefix `\\?\UNC\`.
pub open spec fn verbatim_unc_prefix() -> Seq<char> {
    seq!['\\', '\\', '?', '\\', 'U', 'N', 'C', '\\']
}

/// An ASCII drive letter.
pub open spec fn is_drive_letter(c: char) -> bool {
    ('A' as u32) <= c as u32 <= ('Z' as u32) || ('a' as u32) <= c as u32 <= ('z' as u32)
}

/// Whether the path carries a verbatim disk prefix such as `\\?\C:`, with
/// the drive either ending the path or followed by a separator.
pub open spec fn has_verbatim_disk_prefix(p: Seq<char>) -> bool {
    p.len() >= 6 && p.take(4) == verbatim_prefix() && is_drive_letter(p[4]) && p[5] == ':' && (
    p.len() == 6 || p[6] == '\\')
}

/// The display name the shell parser receives for a given path.
pub open spec fn shell_display_name(p: Seq<char>) -> Seq<char> {
    if p.len() >= 8 && p.take(8) == verbatim_unc_prefix() {
        seq!['\\', '\\'] + p.skip(8)
    } else if has_verbatim_disk_prefix(p) {
        p.skip(4)
    } else if p.len() >= 4 && p.take(4) == verbatim_prefix() {
        seq!['\\', '\\'] + p.skip(4)
    } else {
        p
    }
}

/// Rewrites a verbatim prefix into its traditional form; a path without one
/// is returned unchanged.
pub fn to_shell_display_name(path: &str) -> (r: String)
    ensures
        r@ == shell_display_name(path@),
{
    let n = path.unicode_len();
    if n >= 8 && path.get_char(0) == '\\' && path.get_char(1) == '\\' && path.get_char(2) == '?'
        && path.get_char(3) == '\\' && path.get_char(4) == 'U' && path.get_char(5) == 'N'
        && path.get_char(6) == 'C' && path.get_char(7) == '\\' {
        proof {
            assert(path@.take(8) =~= verbatim_unc_prefix());
        }
        let mut r = String::from_str("\\\\");
        r.append(path.substring_char(8, n));
        proof {
            reveal_strlit("\\\\");
            assert("\\\\"@ =~= seq!['\\', '\\']);
            assert(path@.subrange(8, path@.len() as int) =~= path@.skip(8));
        }
        return r;
    }
    if n >= 4 && path.get_char(0) == '\\' && path.get_char(1) == '\\' && path.get_char(2) == '?'
        && path.get_char(3) == '\\' {
        proof {
            assert(path@.take(4) =~= verbatim_prefix());
        }
        if n >= 6 {
            let c4 = path.get_char(4);
            let u = c4 as u32;
            let drive = (('A' as u32) <= u && u <= ('Z' as u32)) || (('a' as u32) <= u && u <= (
            'z' as u32));
            if drive && path.get_char(5) == ':' && (n == 6 || path.get_char(6) == '\\') {
                let r = String::from_str(path.substring_char(4, n));
                proof {
                    assert(path@.subrange(4, path@.len() as int) =~= path@.skip(4));
                }
                return r;
            }
        }
        let mut r = String::from_str("\\\\");
        r.append(path.substring_char(4, n));
        proof {
            reveal_strlit("\\\\");
            assert("\\\\"@ =~= seq!['\\', '\\']);
            assert(path@.subrange(4, path@.len() as int) =~= path@.skip(4));
        }
        return r;
    }
    String::from_str(path)
}

} // verus!
