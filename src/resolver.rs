use vstd::prelude::*;
use vstd::string::StringSliceAdditionalSpecFns;
use crate::track::ResolveError;

verus! {

/// How a user's query is to be resolved.
#[derive(Clone, Copy, Debug, PartialEq, Eq, Structural)]
pub enum QueryKind {
    /// Free text, handed to the provider's search.
    Search,
    /// One content URL, resolved directly.
    Direct,
    /// A playlist URL, enumerated first and then resolved item by item.
    Playlist,
}

pub const NEWLINE: u8 = 10;

/// `http`
pub open spec fn http_bytes() -> Seq<u8> {
    seq![104u8, 116u8, 116u8, 112u8]
}

/// `list=`
pub open spec fn list_param_bytes() -> Seq<u8> {
    seq![108u8, 105u8, 115u8, 116u8, 61u8]
}

/// `https://`
pub open spec fn https_bytes() -> Seq<u8> {
    seq![104u8, 116u8, 116u8, 112u8, 115u8, 58u8, 47u8, 47u8]
}

/// `/watch?v=`
pub open spec fn watch_bytes() -> Seq<u8> {
    seq![47u8, 119u8, 97u8, 116u8, 99u8, 104u8, 63u8, 118u8, 61u8]
}

/// `p` stands in `s` from index `i` on.
pub open spec fn occurs_at(s: Seq<u8>, p: Seq<u8>, i: int) -> bool {
    0 <= i && i + p.len() <= s.len() && s.subrange(i, i + p.len()) == p
}

pub open spec fn contains_bytes(s: Seq<u8>, p: Seq<u8>) -> bool {
    exists|i: int| occurs_at(s, p, i)
}

/// Free text unless it starts with `http`; a URL with a `list=` parameter is a playlist.
pub open spec fn query_kind(q: Seq<u8>) -> QueryKind {
    if !occurs_at(q, http_bytes(), 0) {
        QueryKind::Search
    } else if contains_bytes(q, list_param_bytes()) {
        QueryKind::Playlist
    } else {
        QueryKind::Direct
    }
}

/// A printable ASCII byte other than space and `/`.
pub open spec fn is_host_byte(b: u8) -> bool {
    33 <= b <= 126 && b != 47
}

/// A byte of a video id: a letter, a digit, `-` or `_`.
pub open spec fn is_id_byte(b: u8) -> bool {
    (48 <= b <= 57) || (65 <= b <= 90) || (97 <= b <= 122) || b == 45 || b == 95
}

/// `https://<host>/watch?v=<id>` with a non-empty host and an id of 11 bytes.
pub open spec fn is_watch_url(l: Seq<u8>) -> bool {
    let host_end = l.len() - 20;
    &&& l.len() >= 29
    &&& occurs_at(l, https_bytes(), 0)
    &&& forall|k: int| 8 <= k < host_end ==> is_host_byte(#[trigger] l[k])
    &&& occurs_at(l, watch_bytes(), host_end)
    &&& forall|k: int| host_end + 9 <= k < l.len() ==> is_id_byte(#[trigger] l[k])
}

/// The lines of `s`, the first of them starting with `cur`.
pub open spec fn lines_from(s: Seq<u8>, cur: Seq<u8>) -> Seq<Seq<u8>>
    decreases s.len(),
{
    if s.len() == 0 {
        seq![cur]
    } else if s[0] == NEWLINE {
        seq![cur] + lines_from(s.drop_first(), Seq::empty())
    } else {
        lines_from(s.drop_first(), cur.push(s[0]))
    }
}

/// The newline-separated lines of `s`; the text after the last newline is a
/// line too, possibly empty.
pub open spec fn lines(s: Seq<u8>) -> Seq<Seq<u8>> {
    lines_from(s, Seq::empty())
}

/// The lines of `ls` that are not empty, in order.
pub open spec fn nonempty_lines(ls: Seq<Seq<u8>>) -> Seq<Seq<u8>>
    decreases ls.len(),
{
    if ls.len() == 0 {
        Seq::empty()
    } else if ls.last().len() > 0 {
        nonempty_lines(ls.drop_last()).push(ls.last())
    } else {
        nonempty_lines(ls.drop_last())
    }
}

/// What a playlist enumerator's output yields: its non-empty lines, when there
/// is at least one and each is a watch URL; otherwise the output is malformed.
pub open spec fn playlist_result(out: Seq<u8>) -> Result<Seq<Seq<u8>>, ResolveError> {
    let items = nonempty_lines(lines(out));
    if items.len() > 0 && forall|i: int| 0 <= i < items.len() ==> is_watch_url(#[trigger] items[i]) {
        Ok(items)
    } else {
        Err(ResolveError::MalformedOutput)
    }
}

pub open spec fn byte_lines(v: Seq<Vec<u8>>) -> Seq<Seq<u8>> {
    v.map_values(|x: Vec<u8>| x@)
}

pub proof fn lemma_nonempty_lines_concat(a: Seq<Seq<u8>>, b: Seq<Seq<u8>>)
    ensures
        nonempty_lines(a + b) == nonempty_lines(a) + nonempty_lines(b),
    decreases b.len(),
{
    if b.len() == 0 {
        assert(a + b =~= a);
        assert(nonempty_lines(a) + nonempty_lines(b) =~= nonempty_lines(a));
    } else {
        lemma_nonempty_lines_concat(a, b.drop_last());
        assert((a + b).drop_last() =~= a + b.drop_last());
        if b.last().len() > 0 {
            assert(nonempty_lines(a) + nonempty_lines(b.drop_last()).push(b.last()) =~= (
            nonempty_lines(a) + nonempty_lines(b.drop_last())).push(b.last()));
        }
    }
}

/// Whether `p` stands in `s` from index `i` on.
pub fn bytes_at(s: &[u8], p: &[u8], i: usize) -> (b: bool)
    ensures
        b == occurs_at(s@, p@, i as int),
{
    if i > s.len() || p.len() > s.len() - i {
        return false;
    }
    let mut j: usize = 0;
    while j < p.len()
        invariant
            s@.len() <= usize::MAX,
            i <= s@.len(),
            i + p@.len() <= s@.len(),
            j <= p@.len(),
            forall|t: int| 0 <= t < j ==> s@[i + t] == p@[t],
        decreases p@.len() - j,
    {
        if s[i + j] != p[j] {
            assert(s@.subrange(i as int, i + p@.len())[j as int] != p@[j as int]);
            return false;
        }
        j = j + 1;
    }
    assert(s@.subrange(i as int, i + p@.len()) =~= p@);
    true
}

/// Whether `p` stands anywhere in `s`.
pub fn contains(s: &[u8], p: &[u8]) -> (b: bool)
    ensures
        b == contains_bytes(s@, p@),
{
    if p.len() > s.len() {
        return false;
    }
    let last = s.len() - p.len();
    let mut i: usize = 0;
    while i < last
        invariant
            i <= last,
            last + p@.len() == s@.len(),
            forall|t: int| 0 <= t < i ==> !occurs_at(s@, p@, t),
        decreases last - i,
    {
        if bytes_at(s, p, i) {
            return true;
        }
        i = i + 1;
    }
    if bytes_at(s, p, last) {
        return true;
    }
    assert forall|t: int| !occurs_at(s@, p@, t) by {
        if 0 <= t && t < last {
            assert(!occurs_at(s@, p@, t));
        }
    }
    false
}

/// Tells a search phrase, a content URL and a playlist URL apart.
pub fn classify_query(query: &str) -> (k: QueryKind)
    ensures
        k == query_kind(query.spec_bytes()),
{
    let q = query.as_bytes();
    let http: [u8; 4] = [104, 116, 116, 112];
    let list: [u8; 5] = [108, 105, 115, 116, 61];
    assert(http@ =~= http_bytes());
    assert(list@ =~= list_param_bytes());
    if !bytes_at(q, http.as_slice(), 0) {
        QueryKind::Search
    } else if contains(q, list.as_slice()) {
        QueryKind::Playlist
    } else {
        QueryKind::Direct
    }
}

/// Whether `l` is a watch URL of the shape that playlist enumeration prints.
pub fn is_watch_url_bytes(l: &[u8]) -> (b: bool)
    ensures
        b == is_watch_url(l@),
{
    if l.len() < 29 {
        return false;
    }
    let https: [u8; 8] = [104, 116, 116, 112, 115, 58, 47, 47];
    let watch: [u8; 9] = [47, 119, 97, 116, 99, 104, 63, 118, 61];
    assert(https@ =~= https_bytes());
    assert(watch@ =~= watch_bytes());
    if !bytes_at(l, https.as_slice(), 0) {
        return false;
    }
    let host_end = l.len() - 20;
    let mut k: usize = 8;
    while k < host_end
        invariant
            8 <= k <= host_end,
            host_end == l@.len() - 20,
            forall|t: int| 8 <= t < k ==> is_host_byte(#[trigger] l@[t]),
        decreases host_end - k,
    {
        let c = l[k];
        if !(33 <= c && c <= 126 && c != 47) {
            assert(!is_host_byte(l@[k as int]));
            return false;
        }
        k = k + 1;
    }
    if !bytes_at(l, watch.as_slice(), host_end) {
        return false;
    }
    let mut k: usize = host_end + 9;
    while k < l.len()
        invariant
            host_end + 9 <= k <= l@.len(),
            host_end == l@.len() - 20,
            forall|t: int| host_end + 9 <= t < k ==> is_id_byte(#[trigger] l@[t]),
        decreases l@.len() - k,
    {
        let c = l[k];
        if !((48 <= c && c <= 57) || (65 <= c && c <= 90) || (97 <= c && c <= 122) || c == 45
            || c == 95) {
            assert(!is_id_byte(l@[k as int]));
            return false;
        }
        k = k + 1;
    }
    true
}

/// Splits `s` at each newline byte.
pub fn split_lines(s: &[u8]) -> (r: Vec<Vec<u8>>)
    ensures
        byte_lines(r@) == lines(s@),
{
    let mut done: Vec<Vec<u8>> = Vec::new();
    let mut cur: Vec<u8> = Vec::new();
    let mut i: usize = 0;
    assert(s@.subrange(0, s@.len() as int) =~= s@);
    assert(byte_lines(done@) =~= Seq::<Seq<u8>>::empty());
    assert(byte_lines(done@) + lines_from(s@, cur@) =~= lines(s@));
    while i < s.len()
        invariant
            i <= s@.len(),
            byte_lines(done@) + lines_from(s@.subrange(i as int, s@.len() as int), cur@) == lines(
                s@,
            ),
        decreases s@.len() - i,
    {
        let ghost rest = s@.subrange(i as int, s@.len() as int);
        let ghost after = s@.subrange(i + 1, s@.len() as int);
        assert(rest.drop_first() =~= after);
        assert(rest[0] == s@[i as int]);
        let c = s[i];
        if c == NEWLINE {
            let ghost before = byte_lines(done@);
            let ghost line = cur@;
            done.push(cur);
            cur = Vec::new();
            assert(byte_lines(done@) =~= before.push(line));
            assert(before.push(line) + lines_from(after, cur@) =~= before + (seq![line]
                + lines_from(after, Seq::empty())));
        } else {
            cur.push(c);
        }
        i = i + 1;
    }
    let ghost before = byte_lines(done@);
    let ghost line = cur@;
    assert(s@.subrange(i as int, s@.len() as int) =~= Seq::<u8>::empty());
    done.push(cur);
    assert(byte_lines(done@) =~= before + seq![line]);
    done
}

/// Reads the item URLs out of a playlist enumerator's output: one per
/// non-empty line. Output with no item, or with a line of another shape, is
/// `MalformedOutput`.
pub fn playlist_items(output: &[u8]) -> (r: Result<Vec<Vec<u8>>, ResolveError>)
    ensures
        match r {
            Ok(v) => playlist_result(output@) == Ok::<Seq<Seq<u8>>, ResolveError>(byte_lines(v@)),
            Err(e) => playlist_result(output@) == Err::<Seq<Seq<u8>>, ResolveError>(e),
        },
{
    let mut rest = split_lines(output);
    let ghost all = lines(output@);
    let n = rest.len();
    let mut items: Vec<Vec<u8>> = Vec::new();
    let mut k: usize = 0;
    assert(all.subrange(0, 0) =~= Seq::<Seq<u8>>::empty());
    assert(all.subrange(0, n as int) =~= all);
    assert(byte_lines(items@) =~= Seq::<Seq<u8>>::empty());
    while k < n
        invariant
            all == lines(output@),
            n == all.len(),
            k <= n,
            rest@.len() == n - k,
            byte_lines(rest@) == all.subrange(k as int, n as int),
            byte_lines(items@) == nonempty_lines(all.subrange(0, k as int)),
            forall|i: int| 0 <= i < items@.len() ==> is_watch_url(#[trigger] items@[i]@),
        decreases n - k,
    {
        let ghost prefix = all.subrange(0, k as int);
        let ghost next = all.subrange(0, k + 1);
        let ghost before = rest@;
        let ghost old_items = byte_lines(items@);
        assert(next.drop_last() =~= prefix);
        assert(byte_lines(before)[0] == all[k as int]);
        assert(byte_lines(before)[0] == before[0]@);
        let line = rest.remove(0);
        assert(line@ == all[k as int]);
        assert(next.last() == line@);
        assert forall|j: int| 0 <= j < rest@.len() implies #[trigger] byte_lines(rest@)[j] == all[k
            + 1 + j] by {
            assert(rest@[j] == before[j + 1]);
            assert(byte_lines(before)[j + 1] == before[j + 1]@);
        }
        assert(byte_lines(rest@) =~= all.subrange(k + 1, n as int));
        if line.len() > 0 {
            if !is_watch_url_bytes(line.as_slice()) {
                proof {
                    lemma_nonempty_lines_concat(next, all.subrange(k + 1, n as int));
                    assert(next + all.subrange(k + 1, n as int) =~= all);
                    let it = nonempty_lines(all);
                    assert(it[old_items.len() as int] == line@);
                    assert(!is_watch_url(it[old_items.len() as int]));
                }
                return Err(ResolveError::MalformedOutput);
            }
            items.push(line);
            assert(byte_lines(items@) =~= old_items.push(line@));
        }
        k = k + 1;
    }
    if items.len() == 0 {
        return Err(ResolveError::MalformedOutput);
    }
    proof {
        let it = nonempty_lines(all);
        assert forall|i: int| 0 <= i < it.len() implies is_watch_url(#[trigger] it[i]) by {
            assert(it[i] == items@[i]@);
        }
    }
    Ok(items)
}

} // verus!
