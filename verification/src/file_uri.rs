//! Building `file://` URIs from absolute POSIX paths.
//!
//! The URI of an absolute path is the scheme `file://`, the root separator
//! as a literal `/`, and the path's segments percent-encoded and joined with
//! `/`. Repeated separators collapse into one; dot segments are kept as they
//! stand, nothing is resolved. A relative path has no `file://` URI here.

use crate::percent::encode_component;
use crate::percent::lemma_percent_encoded_has_no_nul;
use crate::percent::percent_encoded;
use vstd::prelude::*;
use vstd::string::StringExecFns;

verus! {

/// A POSIX path is absolute exactly when it starts with the root separator.
pub open spec fn is_absolute_path(p: Seq<u8>) -> bool {
    p.len() > 0 && p[0] == ('/' as u8)
}

/// The path's segments: the maximal nonempty runs of bytes between `/`
/// separators, in order.
pub open spec fn path_segments(p: Seq<u8>) -> Seq<Seq<u8>>
    decreases p.len(),
{
    if p.len() == 0 {
        Seq::<Seq<u8>>::empty()
    } else if p.last() == ('/' as u8) {
        path_segments(p.drop_last())
    } else if p.len() == 1 || p[p.len() - 2] == ('/' as u8) {
        path_segments(p.drop_last()).push(seq![p.last()])
    } else {
        let init = path_segments(p.drop_last());
        init.update(init.len() - 1, init.last().push(p.last()))
    }
}

/// The segments percent-encoded and joined with `/`.
pub open spec fn joined_segments(ss: Seq<Seq<u8>>) -> Seq<char>
    decreases ss.len(),
{
    if ss.len() == 0 {
        Seq::<char>::empty()
    } else if ss.len() == 1 {
        percent_encoded(ss[0])
    } else {
        joined_segments(ss.drop_last()) + seq!['/'] + percent_encoded(ss.last())
    }
}

/// The scheme, the empty authority, and the root separator.
pub open spec fn file_uri_prefix() -> Seq<char> {
    seq!['f', 'i', 'l', 'e', ':', '/', '/', '/']
}

/// The `file://` URI of an absolute path.
pub open spec fn file_uri_chars(p: Seq<u8>) -> Seq<char> {
    file_uri_prefix() + joined_segments(path_segments(p))
}

/// A trailing separator adds no segment.
proof fn lemma_segments_drop_slash(q: Seq<u8>)
    requires
        q.len() > 0,
        q.last() == ('/' as u8),
    ensures
        path_segments(q) == path_segments(q.drop_last()),
{
}

/// Appending one whole segment after a separator boundary appends exactly
/// that segment to the segment list.
proof fn lemma_segments_extend(q: Seq<u8>, s: Seq<u8>)
    requires
        q.len() == 0 || q.last() == ('/' as u8),
        s.len() > 0,
        forall|k: int| 0 <= k < s.len() ==> s[k] != ('/' as u8),
    ensures
        path_segments(q + s) == path_segments(q).push(s),
    decreases s.len(),
{
    let t = q + s;
    if s.len() == 1 {
        assert(t.drop_last() =~= q);
        assert(t.last() == s[0]);
        assert(seq![t.last()] =~= s);
    } else {
        lemma_segments_extend(q, s.drop_last());
        assert(t.drop_last() =~= q + s.drop_last());
        assert(t.last() == s.last());
        assert(t[t.len() - 2] == s[s.len() - 2]);
        let init = path_segments(q + s.drop_last());
        assert(init.last().push(t.last()) =~= s);
        assert(init.update(init.len() - 1, s) =~= path_segments(q).push(s));
    }
}

/// Joining after appending a segment: the first segment stands alone, every
/// later one is preceded by a separator.
proof fn lemma_joined_push(ss: Seq<Seq<u8>>, s: Seq<u8>)
    ensures
        joined_segments(ss.push(s)) == if ss.len() == 0 {
            percent_encoded(s)
        } else {
            joined_segments(ss) + seq!['/'] + percent_encoded(s)
        },
{
    assert(ss.push(s).drop_last() =~= ss);
    assert(ss.push(s).last() == s);
    if ss.len() == 0 {
        assert(ss.push(s)[0] == s);
    }
}

/// Converts an absolute path, given as its raw bytes, into its `file://` URI
/// with every segment percent-encoded. A relative path yields `None`.
pub fn path_to_file_uri(path: &[u8]) -> (r: Option<String>)
    ensures
        r is Some <==> is_absolute_path(path@),
        r matches Some(u) ==> u@ == file_uri_chars(path@),
{
    if path.len() == 0 || path[0] != ('/' as u8) {
        return None;
    }
    let ghost p = path@;
    let mut uri = String::new();
    uri.append("file:///");
    proof {
        reveal_strlit("file:///");
        assert(uri@ =~= file_uri_prefix());
    }
    let mut i: usize = 0;
    let mut seg: Vec<u8> = Vec::new();
    let mut first: bool = true;
    while i < path.len()
        invariant
            p == path@,
            is_absolute_path(p),
            i <= p.len(),
            seg@.len() <= i,
            seg@ == p.subrange(i - seg@.len(), i as int),
            forall|k: int| 0 <= k < seg@.len() ==> seg@[k] != ('/' as u8),
            seg@.len() < i ==> p[i - seg@.len() - 1] == ('/' as u8),
            uri@ == file_uri_prefix() + joined_segments(path_segments(p.take(i - seg@.len()))),
            first == (path_segments(p.take(i - seg@.len())).len() == 0),
        decreases p.len() - i,
    {
        let ghost start = i - seg@.len();
        let b = path[i];
        if b == ('/' as u8) {
            if seg.len() > 0 {
                proof {
                    let q = p.take(start);
                    assert(seg@[0] == p[start]);
                    assert(q.len() > 0 && q.last() == ('/' as u8));
                    assert(q + seg@ =~= p.take(i as int));
                    lemma_segments_extend(q, seg@);
                    lemma_joined_push(path_segments(q), seg@);
                }
                let enc = encode_component(seg.as_slice());
                if !first {
                    uri.append("/");
                    proof {
                        reveal_strlit("/");
                        assert("/"@ =~= seq!['/']);
                    }
                }
                uri.append(enc.as_str());
                first = false;
                seg = Vec::new();
            }
            proof {
                assert(p.take(i + 1).last() == ('/' as u8));
                assert(p.take(i + 1).drop_last() =~= p.take(i as int));
                lemma_segments_drop_slash(p.take(i + 1));
            }
            i = i + 1;
        } else {
            seg.push(b);
            i = i + 1;
            proof {
                assert(seg@ =~= p.subrange(i - seg@.len(), i as int));
            }
        }
    }
    if seg.len() > 0 {
        let ghost start = i - seg@.len();
        proof {
            let q = p.take(start);
            assert(q.len() == 0 || q.last() == ('/' as u8));
            assert(q + seg@ =~= p.take(i as int));
            lemma_segments_extend(q, seg@);
            lemma_joined_push(path_segments(q), seg@);
        }
        let enc = encode_component(seg.as_slice());
        if !first {
            uri.append("/");
            proof {
                reveal_strlit("/");
                assert("/"@ =~= seq!['/']);
            }
        }
        uri.append(enc.as_str());
    }
    proof {
        assert(p.take(p.len() as int) =~= p);
    }
    Some(uri)
}

/// The URI of an absolute path never contains a nul character: the scheme
/// and separators are printable, and every segment is percent-encoded.
pub proof fn lemma_file_uri_has_no_nul(p: Seq<u8>)
    ensures
        forall|i: int| 0 <= i < file_uri_chars(p).len() ==> file_uri_chars(p)[i] != '\0',
{
    lemma_joined_has_no_nul(path_segments(p));
    assert forall|i: int| 0 <= i < file_uri_chars(p).len() implies file_uri_chars(p)[i] != '\0' by {
        if i < file_uri_prefix().len() {
            assert(file_uri_chars(p)[i] == file_uri_prefix()[i]);
        } else {
            assert(file_uri_chars(p)[i] == joined_segments(path_segments(p))[i
                - file_uri_prefix().len()]);
        }
    }
}

/// Joined percent-encoded segments never contain a nul character.
proof fn lemma_joined_has_no_nul(ss: Seq<Seq<u8>>)
    ensures
        forall|i: int| 0 <= i < joined_segments(ss).len() ==> joined_segments(ss)[i] != '\0',
    decreases ss.len(),
{
    if ss.len() == 0 {
    } else if ss.len() == 1 {
        lemma_percent_encoded_has_no_nul(ss[0]);
    } else {
        lemma_joined_has_no_nul(ss.drop_last());
        lemma_percent_encoded_has_no_nul(ss.last());
        assert forall|i: int| 0 <= i < joined_segments(ss).len() implies joined_segments(ss)[i]
            != '\0' by {
            let head = joined_segments(ss.drop_last());
            if i < head.len() {
                assert(joined_segments(ss)[i] == head[i]);
            } else if i == head.len() {
                assert(joined_segments(ss)[i] == '/');
            } else {
                assert(joined_segments(ss)[i] == percent_encoded(ss.last())[i - head.len() - 1]);
            }
        }
    }
}

} // verus!
