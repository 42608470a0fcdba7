//! The `ShowItems` request sent to the desktop's file-manager service.
//!
//! Revealing an item on the desktop bus is one method call, `ShowItems`, on
//! the `org.freedesktop.FileManager1` interface of the session bus, carrying
//! the URIs to reveal and a startup notification id. The strings handed to
//! the native call layer are cut at the first embedded nul.

use crate::file_uri::file_uri_chars;
use crate::file_uri::is_absolute_path;
use crate::file_uri::path_to_file_uri;
use vstd::prelude::*;
use vstd::string::StrSliceExecFns;
use vstd::string::StringExecFns;

verus! {

/// The characters of a string before its first nul; the whole string when
/// none occurs.
pub open spec fn before_nul(s: Seq<char>) -> Seq<char>
    decreases s.len(),
{
    if s.len() == 0 {
        Seq::<char>::empty()
    } else if s[0] == '\0' {
        Seq::<char>::empty()
    } else {
        seq![s[0]] + before_nul(s.skip(1))
    }
}

/// When the first `k` characters are nul-free and position `k` ends the
/// string or holds a nul, the truncation is exactly the first `k` characters.
proof fn lemma_before_nul_take(s: Seq<char>, k: int)
    requires
        0 <= k <= s.len(),
        forall|j: int| 0 <= j < k ==> s[j] != '\0',
        k == s.len() || s[k] == '\0',
    ensures
        before_nul(s) == s.take(k),
    decreases s.len(),
{
    if s.len() == 0 {
        assert(s.take(k) =~= before_nul(s));
    } else if s[0] == '\0' {
        assert(k == 0);
        assert(s.take(0) =~= Seq::<char>::empty());
    } else {
        assert(k >= 1);
        assert forall|j: int| 0 <= j < k - 1 implies s.skip(1)[j] != '\0' by {
            assert(s.skip(1)[j] == s[j + 1]);
        }
        lemma_before_nul_take(s.skip(1), k - 1);
        assert(seq![s[0]] + s.skip(1).take(k - 1) =~= s.take(k));
    }
}

/// The truncation keeps exactly the characters before the first nul: it is
/// a prefix of the input, contains no nul, and either is the whole input or
/// stops at a nul.
pub proof fn lemma_before_nul_is_nul_free_prefix(s: Seq<char>)
    ensures
        before_nul(s).len() <= s.len(),
        before_nul(s) == s.take(before_nul(s).len() as int),
        forall|i: int| 0 <= i < before_nul(s).len() ==> before_nul(s)[i] != '\0',
        before_nul(s).len() == s.len() || s[before_nul(s).len() as int] == '\0',
    decreases s.len(),
{
    if s.len() == 0 {
    } else if s[0] == '\0' {
    } else {
        lemma_before_nul_is_nul_free_prefix(s.skip(1));
        let b = before_nul(s);
        assert forall|i: int| 0 <= i < b.len() implies b[i] != '\0' by {
            if i > 0 {
                assert(b[i] == before_nul(s.skip(1))[i - 1]);
            }
        }
        assert(b == s.take(b.len() as int)) by {
            assert(s.skip(1).take(before_nul(s.skip(1)).len() as int) =~= s.take(b.len() as int).skip(
                1,
            ));
            assert(b =~= s.take(b.len() as int));
        }
        if b.len() < s.len() {
            assert(s[b.len() as int] == s.skip(1)[before_nul(s.skip(1)).len() as int]);
        }
    }
}

/// Cuts a string at its first embedded nul character.
pub fn truncate_at_nul(s: &str) -> (r: String)
    ensures
        r@ == before_nul(s@),
{
    let n = s.unicode_len();
    let mut k: usize = 0;
    loop
        invariant
            k <= n,
            n == s@.len(),
            forall|j: int| 0 <= j < k ==> s@[j] != '\0',
        ensures
            k <= n,
            n == s@.len(),
            forall|j: int| 0 <= j < k ==> s@[j] != '\0',
            k == n || s@[k as int] == '\0',
        decreases n - k,
    {
        if k == n {
            break ;
        }
        if s.get_char(k) == '\0' {
            break ;
        }
        k = k + 1;
    }
    let t = s.substring_char(0, k);
    proof {
        lemma_before_nul_take(s@, k as int);
        assert(s@.subrange(0, k as int) =~= s@.take(k as int));
    }
    String::from_str(t)
}

/// One `ShowItems` method call to the desktop's file-manager service: the
/// URIs to reveal and the caller's startup notification id.
pub struct ShowItemsRequest {
    pub uris: Vec<String>,
    pub startup_id: String,
}

/// The bus name the request is addressed to.
pub fn file_manager_destination() -> (r: &'static str)
    ensures
        r@ == "org.freedesktop.FileManager1"@,
{
    "org.freedesktop.FileManager1"
}

/// The object path addressed on the destination.
pub fn file_manager_object_path() -> (r: &'static str)
    ensures
        r@ == "/org/freedesktop/FileManager1"@,
{
    "/org/freedesktop/FileManager1"
}

/// The interface that offers the method.
pub fn file_manager_interface() -> (r: &'static str)
    ensures
        r@ == "org.freedesktop.FileManager1"@,
{
    "org.freedesktop.FileManager1"
}

/// The method's name.
pub fn show_items_method() -> (r: &'static str)
    ensures
        r@ == "ShowItems"@,
{
    "ShowItems"
}

/// Builds the request that reveals `uri`: one call whose argument list
/// carries the single URI, cut at any embedded nul, beside an empty startup
/// id.
pub fn show_items_request_for_uri(uri: &str) -> (r: ShowItemsRequest)
    ensures
        r.uris@.len() == 1,
        r.uris@[0]@ == before_nul(uri@),
        r.startup_id@ == Seq::<char>::empty(),
{
    let mut uris: Vec<String> = Vec::new();
    uris.push(truncate_at_nul(uri));
    ShowItemsRequest { uris, startup_id: String::new() }
}

/// Builds the request that reveals the file at an absolute `path`, given as
/// its raw bytes. A relative path has no `file://` URI, yields `None`, and
/// so never reaches the bus.
pub fn show_items_request_for_path(path: &[u8]) -> (r: Option<ShowItemsRequest>)
    ensures
        r is Some <==> is_absolute_path(path@),
        r matches Some(req) ==> req.uris@.len() == 1 && req.uris@[0]@ == file_uri_chars(path@)
            && req.startup_id@ == Seq::<char>::empty(),
{
    match path_to_file_uri(path) {
        None => None,
        Some(u) => {
            let mut uris: Vec<String> = Vec::new();
            uris.push(u);
            Some(ShowItemsRequest { uris, startup_id: String::new() })
        },
    }
}

} // verus!
