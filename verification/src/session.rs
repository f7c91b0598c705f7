use vstd::prelude::*;
use vstd::utf8::encode_utf8;
use crate::auth::{is_token_char, uuid_text, lemma_uuid_text_chars};
use crate::headers::{header_get, HeaderSeq, Headers};
use crate::text::{
    all_visible_ascii, ascii_chars, bytes_eq, check_visible_ascii, header_value_to_str,
    is_visible_ascii,
};

verus! {

broadcast use vstd::seq_lib::group_seq_properties;

/// An ASCII white-space byte, as `str::trim` removes it.
pub open spec fn is_ws(b: u8) -> bool {
    b == 32 || (9 <= b && b <= 13)
}

/// Bytes with leading white space removed.
pub open spec fn trim_start(s: Seq<u8>) -> Seq<u8>
    decreases s.len(),
{
    if s.len() > 0 && is_ws(s[0]) {
        trim_start(s.drop_first())
    } else {
        s
    }
}

/// Bytes with trailing white space removed.
pub open spec fn trim_end(s: Seq<u8>) -> Seq<u8>
    decreases s.len(),
{
    if s.len() > 0 && is_ws(s.last()) {
        trim_end(s.drop_last())
    } else {
        s
    }
}

/// Bytes with white space removed at both ends, as `str::trim` does on
/// ASCII text.
pub open spec fn trim(s: Seq<u8>) -> Seq<u8> {
    trim_end(trim_start(s))
}

/// The pieces of a cookie header between `;` separators, as `str::split`
/// yields them: one more piece than there are separators.
pub open spec fn split_semicolons(s: Seq<u8>) -> Seq<Seq<u8>>
    decreases s.len(),
{
    if s.len() == 0 {
        seq![Seq::empty()]
    } else {
        let pre = split_semicolons(s.drop_last());
        if s.last() == 59 {
            pre.push(Seq::empty())
        } else {
            pre.update(pre.len() - 1, pre.last().push(s.last()))
        }
    }
}

/// The bytes of `session_id=`.
pub open spec fn session_key() -> Seq<u8> {
    encode_utf8("session_id="@)
}

/// The session id that one cookie piece carries: after trimming, a piece
/// that begins with `session_id=` carries the rest of it.
pub open spec fn piece_ids(p: Seq<u8>) -> Seq<Seq<u8>> {
    let t = trim(p);
    let k = session_key();
    if t.len() >= k.len() && t.take(k.len() as int) == k {
        seq![t.skip(k.len() as int)]
    } else {
        Seq::empty()
    }
}

/// The session ids of a list of cookie pieces, in order.
pub open spec fn ids_of_pieces(ps: Seq<Seq<u8>>) -> Seq<Seq<u8>>
    decreases ps.len(),
{
    if ps.len() == 0 {
        Seq::empty()
    } else {
        ids_of_pieces(ps.drop_last()) + piece_ids(ps.last())
    }
}

/// The session ids that a request's `cookie` header offers, in order: none
/// when the header is absent or not text.
pub open spec fn session_ids(h: HeaderSeq) -> Seq<Seq<u8>> {
    match header_get(h, "cookie"@) {
        Some(v) => if all_visible_ascii(v) {
            ids_of_pieces(split_semicolons(v))
        } else {
            Seq::empty()
        },
        None => Seq::empty(),
    }
}

/// One step of finding the signed-in user: the lookup of one offered
/// session id names the user when the database knows that session (and it
/// has not expired); a session it does not know, or a failed lookup, names
/// nobody, and the next offered id is tried.
pub fn known_session_user(lookup: Result<Option<u128>, crate::models::DbError>) -> (r: Option<u128>)
    ensures
        lookup matches Ok(Some(u)) ==> r == Some(u),
        !(lookup is Ok && lookup->Ok_0 is Some) ==> r is None,
{
    match lookup {
        Ok(Some(u)) => Some(u),
        _ => None,
    }
}

/// Skipping leading white space.
fn trim_start_index(p: &[u8]) -> (lo: usize)
    ensures
        lo <= p@.len(),
        trim_start(p@) == p@.skip(lo as int),
{
    let n = p.len();
    let mut lo: usize = 0;
    assert(p@.skip(0) =~= p@);
    while lo < n && (p[lo] == 32 || (9 <= p[lo] && p[lo] <= 13))
        invariant
            n == p@.len(),
            lo <= n,
            trim_start(p@) == trim_start(p@.skip(lo as int)),
        decreases n - lo,
    {
        assert(p@.skip(lo as int).drop_first() =~= p@.skip(lo + 1));
        lo = lo + 1;
    }
    lo
}

/// Dropping trailing white space.
fn trim_end_index(p: &[u8]) -> (hi: usize)
    ensures
        hi <= p@.len(),
        trim_end(p@) == p@.take(hi as int),
{
    let mut hi: usize = p.len();
    assert(p@.take(hi as int) =~= p@);
    while hi > 0 && (p[hi - 1] == 32 || (9 <= p[hi - 1] && p[hi - 1] <= 13))
        invariant
            hi <= p@.len(),
            trim_end(p@) == trim_end(p@.take(hi as int)),
        decreases hi,
    {
        assert(p@.take(hi as int).drop_last() =~= p@.take(hi - 1));
        hi = hi - 1;
    }
    hi
}

/// The bytes `s[start..end]`.
fn subslice(s: &[u8], start: usize, end: usize) -> (r: &[u8])
    requires
        start <= end <= s@.len(),
    ensures
        r@ == s@.subrange(start as int, end as int),
{
    let (a, _) = s.split_at(end);
    let (_, b) = a.split_at(start);
    assert(b@ =~= s@.subrange(start as int, end as int));
    b
}

/// The session id of one cookie piece, if it has one.
fn piece_id(p: &[u8]) -> (r: Option<&[u8]>)
    ensures
        r matches Some(id) ==> piece_ids(p@) == seq![id@],
        r is None ==> piece_ids(p@) == Seq::<Seq<u8>>::empty(),
{
    let lo = trim_start_index(p);
    let rest = subslice(p, lo, p.len());
    assert(rest@ == p@.skip(lo as int));
    let hi = trim_end_index(rest);
    let t = subslice(rest, 0, hi);
    assert(t@ =~= rest@.take(hi as int));
    assert(t@ == trim(p@));
    let key = "session_id=".as_bytes();
    if t.len() >= key.len() {
        let (head, tail) = t.split_at(key.len());
        if bytes_eq(head, key) {
            return Some(tail);
        }
    }
    None
}

/// The session ids offered by the `cookie` header of a request, in the
/// order in which they appear: the pieces of the header between `;`, each
/// trimmed, that begin with `session_id=`, with that prefix removed.
pub fn session_candidates(headers: &Headers) -> (r: Vec<String>)
    ensures
        r@.len() == session_ids(headers@).len(),
        forall|k: int| 0 <= k < r@.len() ==> #[trigger] r@[k]@ == ascii_chars(session_ids(headers@)[k]),
{
    let mut out: Vec<String> = Vec::new();
    let v = match headers.get("cookie") {
        Some(v) => v,
        None => {
            return out;
        },
    };
    if !check_visible_ascii(v) {
        return out;
    }
    let ghost ids: Seq<Seq<u8>> = Seq::empty();
    let ghost done: Seq<Seq<u8>> = Seq::empty();
    let n = v.len();
    let mut start: usize = 0;
    let mut i: usize = 0;
    assert(v@.take(0) =~= Seq::<u8>::empty());
    assert(split_semicolons(v@.take(0)) == seq![Seq::<u8>::empty()]);
    assert(v@.subrange(0, 0) =~= Seq::<u8>::empty());
    assert(done.push(v@.subrange(0, 0)) =~= seq![Seq::<u8>::empty()]);
    while i < n
        invariant
            n == v@.len(),
            all_visible_ascii(v@),
            start <= i <= n,
            split_semicolons(v@.take(i as int)) == done.push(v@.subrange(start as int, i as int)),
            ids == ids_of_pieces(done),
            out@.len() == ids.len(),
            forall|k: int| 0 <= k < out@.len() ==> #[trigger] out@[k]@ == ascii_chars(ids[k]),
            forall|k: int| 0 <= k < ids.len() ==> all_visible_ascii(#[trigger] ids[k]),
        decreases n - i,
    {
        assert(v@.take(i + 1).drop_last() =~= v@.take(i as int));
        assert(v@.take(i + 1).last() == v@[i as int]);
        if v[i] == 59 {
            let piece = subslice(v, start, i);
            let found = piece_id(piece);
            if let Some(id) = found {
                proof {
                    assert forall|j: int| 0 <= j < id@.len() implies is_visible_ascii(#[trigger] id@[j]) by {
                        lemma_piece_id_within(piece@, j);
                        assert(piece@[start_of_piece_id(piece@) + j] == v@[start + start_of_piece_id(piece@) + j]);
                    }
                }
                let text = header_value_to_str(id);
                let text = match text {
                    Some(t) => t,
                    None => String::new(),
                };
                out.push(text);
                proof {
                    let new_ids = ids + seq![id@];
                    assert(ids_of_pieces(done.push(piece@)) == ids + piece_ids(piece@)) by {
                        assert(done.push(piece@).drop_last() =~= done);
                    }
                    ids = new_ids;
                    assert forall|k: int| 0 <= k < out@.len() implies #[trigger] out@[k]@ == ascii_chars(ids[k]) by {
                        if k == out@.len() - 1 {
                            assert(ids[k] == id@);
                        }
                    }
                }
            } else {
                proof {
                    assert(ids_of_pieces(done.push(piece@)) =~= ids + piece_ids(piece@)) by {
                        assert(done.push(piece@).drop_last() =~= done);
                    }
                }
            }
            proof {
                done = done.push(piece@);
                assert(v@.subrange((i + 1) as int, (i + 1) as int) =~= Seq::<u8>::empty());
            }
            start = i + 1;
        } else {
            proof {
                assert(v@.subrange(start as int, (i + 1) as int) =~= v@.subrange(start as int, i as int).push(v@[i as int]));
                let pre = done.push(v@.subrange(start as int, i as int));
                assert(pre.update(pre.len() - 1, pre.last().push(v@[i as int])) =~= done.push(v@.subrange(start as int, (i + 1) as int)));
            }
        }
        i = i + 1;
    }
    let piece = subslice(v, start, n);
    assert(v@.take(n as int) =~= v@);
    let found = piece_id(piece);
    if let Some(id) = found {
        proof {
            assert forall|j: int| 0 <= j < id@.len() implies is_visible_ascii(#[trigger] id@[j]) by {
                lemma_piece_id_within(piece@, j);
                assert(piece@[start_of_piece_id(piece@) + j] == v@[start + start_of_piece_id(piece@) + j]);
            }
        }
        let text = header_value_to_str(id);
        let text = match text {
            Some(t) => t,
            None => String::new(),
        };
        out.push(text);
        proof {
            assert(ids_of_pieces(done.push(piece@)) == ids + piece_ids(piece@)) by {
                assert(done.push(piece@).drop_last() =~= done);
            }
            let final_ids = ids + seq![id@];
            assert forall|k: int| 0 <= k < out@.len() implies #[trigger] out@[k]@ == ascii_chars(final_ids[k]) by {
                if k == out@.len() - 1 {
                    assert(final_ids[k] == id@);
                } else {
                    assert(final_ids[k] == ids[k]);
                }
            }
        }
    } else {
        proof {
            assert(ids_of_pieces(done.push(piece@)) =~= ids + piece_ids(piece@)) by {
                assert(done.push(piece@).drop_last() =~= done);
            }
        }
    }
    out
}

/// Where the id of a piece starts within the piece.
pub open spec fn start_of_piece_id(p: Seq<u8>) -> int {
    (p.len() - trim_start(p).len()) + session_key().len()
}

/// Trimming removes a prefix and a suffix.
proof fn lemma_trim_is_subrange(s: Seq<u8>)
    ensures
        trim_start(s).len() <= s.len(),
        trim_start(s) == s.skip(s.len() - trim_start(s).len()),
        trim_end(s).len() <= s.len(),
        trim_end(s) == s.take(trim_end(s).len() as int),
    decreases s.len(),
{
    if s.len() > 0 {
        lemma_trim_is_subrange(s.drop_first());
        lemma_trim_is_subrange(s.drop_last());
        if is_ws(s[0]) {
            assert(s.drop_first().skip(s.drop_first().len() - trim_start(s.drop_first()).len()) =~= s.skip(
                s.len() - trim_start(s).len(),
            ));
        } else {
            assert(s.skip(0) =~= s);
        }
        if is_ws(s.last()) {
            assert(s.drop_last().take(trim_end(s.drop_last()).len() as int) =~= s.take(trim_end(s).len() as int));
        } else {
            assert(s.take(s.len() as int) =~= s);
        }
    }
}

/// The id of a piece is a stretch of the piece.
proof fn lemma_piece_id_within(p: Seq<u8>, j: int)
    requires
        piece_ids(p).len() == 1,
        0 <= j < piece_ids(p)[0].len(),
    ensures
        0 <= start_of_piece_id(p) + j < p.len(),
        piece_ids(p)[0][j] == p[start_of_piece_id(p) + j],
{
    lemma_trim_is_subrange(p);
    let ts = trim_start(p);
    lemma_trim_is_subrange(ts);
    let t = trim(p);
    let k = session_key();
    assert(piece_ids(p)[0] == t.skip(k.len() as int));
    assert(t[k.len() + j] == ts[k.len() + j]);
    assert(ts[k.len() + j] == p[(p.len() - ts.len()) + k.len() + j]);
}

/// Text without `;` is one piece.
proof fn lemma_split_single(s: Seq<u8>)
    requires
        forall|i: int| 0 <= i < s.len() ==> #[trigger] s[i] != 59,
    ensures
        split_semicolons(s) == seq![s],
    decreases s.len(),
{
    if s.len() > 0 {
        lemma_split_single(s.drop_last());
        assert(s.drop_last().push(s.last()) =~= s);
    }
}

/// The cookie that a login sets carries its session id back: a request
/// whose `cookie` header is the `session_id=` pair of a session id made of
/// letters, digits and hyphens offers exactly that id.
pub proof fn lemma_session_cookie_read_back(h: HeaderSeq, sid: Seq<char>)
    requires
        sid.len() > 0,
        forall|i: int| 0 <= i < sid.len() ==> is_token_char(#[trigger] sid[i]),
        header_get(h, "cookie"@) == Some(encode_utf8("session_id="@ + sid)),
    ensures
        session_ids(h).len() == 1,
        ascii_chars(session_ids(h)[0]) == sid,
{
    lemma_pair_bytes(sid);
    let v = encode_utf8("session_id="@ + sid);
    let empty = Seq::<u8>::empty();
    lemma_pair_piece(empty, sid);
    assert(empty + v =~= v);
    assert(all_visible_ascii(v));
    lemma_split_single(v);
    assert(ids_of_pieces(seq![v]) =~= piece_ids(v)) by {
        assert(seq![v].drop_last() =~= Seq::<Seq<u8>>::empty());
        assert(ids_of_pieces(Seq::<Seq<u8>>::empty()) == Seq::<Seq<u8>>::empty());
        assert(Seq::<Seq<u8>>::empty() + piece_ids(v) =~= piece_ids(v));
    }
    assert(session_ids(h) == seq![encode_utf8(sid)]);
}

/// Reading the encoding of ASCII text as ASCII gives the text back.
proof fn lemma_ascii_chars_encode_of(s: Seq<char>)
    requires
        vstd::utf8::is_ascii_chars(s),
    ensures
        ascii_chars(encode_utf8(s)) == s,
{
    vstd::utf8::is_ascii_chars_encode_utf8(s);
    let b = encode_utf8(s);
    assert forall|i: int| 0 <= i < s.len() implies ascii_chars(b)[i] == s[i] by {
        assert(s[i] as u8 == b[i]);
        let c = s[i];
        assert((c as u8) as char == c);
    }
    assert(ascii_chars(b) =~= s);
}

/// Every text has at least one piece.
proof fn lemma_split_nonempty(s: Seq<u8>)
    ensures
        split_semicolons(s).len() >= 1,
    decreases s.len(),
{
    if s.len() > 0 {
        lemma_split_nonempty(s.drop_last());
    }
}

/// Splitting at a `;` splits the pieces.
proof fn lemma_split_concat(a: Seq<u8>, b: Seq<u8>)
    ensures
        split_semicolons(a + seq![59u8] + b) == split_semicolons(a) + split_semicolons(b),
    decreases b.len(),
{
    let s = a + seq![59u8] + b;
    if b.len() == 0 {
        assert(s.drop_last() =~= a);
        assert(split_semicolons(b) == seq![Seq::<u8>::empty()]);
        assert(split_semicolons(s) =~= split_semicolons(a) + split_semicolons(b));
    } else {
        lemma_split_concat(a, b.drop_last());
        lemma_split_nonempty(b.drop_last());
        assert(s.drop_last() =~= a + seq![59u8] + b.drop_last());
        assert(s.last() == b.last());
        let pa = split_semicolons(a);
        let pb = split_semicolons(b.drop_last());
        if b.last() == 59 {
            assert(split_semicolons(s) =~= pa + split_semicolons(b));
        } else {
            let pre = pa + pb;
            assert(pre.update(pre.len() - 1, pre.last().push(b.last())) =~= pa + pb.update(
                pb.len() - 1,
                pb.last().push(b.last()),
            ));
        }
    }
}

/// The session ids of joined piece lists are joined.
proof fn lemma_ids_concat(p: Seq<Seq<u8>>, q: Seq<Seq<u8>>)
    ensures
        ids_of_pieces(p + q) == ids_of_pieces(p) + ids_of_pieces(q),
    decreases q.len(),
{
    if q.len() == 0 {
        assert(p + q =~= p);
        assert(ids_of_pieces(p) + ids_of_pieces(q) =~= ids_of_pieces(p));
    } else {
        lemma_ids_concat(p, q.drop_last());
        assert((p + q).drop_last() =~= p + q.drop_last());
        assert((p + q).last() == q.last());
        assert(ids_of_pieces(p + q) =~= ids_of_pieces(p) + ids_of_pieces(q));
    }
}

/// Leading white space is trimmed away.
proof fn lemma_trim_start_gap(gap: Seq<u8>, rest: Seq<u8>)
    requires
        forall|i: int| 0 <= i < gap.len() ==> is_ws(#[trigger] gap[i]),
        rest.len() > 0,
        !is_ws(rest[0]),
    ensures
        trim_start(gap + rest) == rest,
    decreases gap.len(),
{
    if gap.len() == 0 {
        assert(gap + rest =~= rest);
    } else {
        lemma_trim_start_gap(gap.drop_first(), rest);
        assert((gap + rest).drop_first() =~= gap.drop_first() + rest);
    }
}

/// The bytes of a `session_id=` pair with an id of letters, digits and
/// hyphens: the key's bytes then the id's, none of them `;`, all visible.
proof fn lemma_pair_bytes(sid: Seq<char>)
    requires
        sid.len() > 0,
        forall|i: int| 0 <= i < sid.len() ==> is_token_char(#[trigger] sid[i]),
    ensures
        encode_utf8("session_id="@ + sid) == session_key() + encode_utf8(sid),
        encode_utf8(sid).len() == sid.len(),
        forall|i: int| 0 <= i < encode_utf8(sid).len() ==> #[trigger] encode_utf8(sid)[i] != 59
            && !is_ws(encode_utf8(sid)[i]) && is_visible_ascii(encode_utf8(sid)[i]),
        forall|i: int| 0 <= i < session_key().len() ==> #[trigger] session_key()[i] != 59
            && is_visible_ascii(session_key()[i]),
        session_key().len() == 11,
        session_key()[0] == 115u8,
        ascii_chars(encode_utf8(sid)) == sid,
{
    reveal_strlit("session_id=");
    let key_chars = "session_id="@;
    let pair_chars = key_chars + sid;
    assert forall|i: int| 0 <= i < pair_chars.len() implies '\0' <= #[trigger] pair_chars[i] <= '\u{7f}' by {
        if i >= key_chars.len() {
            assert(pair_chars[i] == sid[i - key_chars.len()]);
        }
    }
    vstd::utf8::is_ascii_chars_encode_utf8(pair_chars);
    vstd::utf8::is_ascii_chars_encode_utf8(key_chars);
    vstd::utf8::is_ascii_chars_encode_utf8(sid);
    let kb = session_key();
    let sb = encode_utf8(sid);
    let pair = encode_utf8(pair_chars);
    assert(pair =~= kb + sb) by {
        assert forall|i: int| 0 <= i < pair.len() implies pair[i] == (kb + sb)[i] by {
            if i < kb.len() {
                assert(pair_chars[i] == key_chars[i]);
            } else {
                assert(pair_chars[i] == sid[i - kb.len()]);
            }
        }
    }
    assert forall|i: int| 0 <= i < sb.len() implies #[trigger] sb[i] != 59 && !is_ws(sb[i])
        && is_visible_ascii(sb[i]) by {
        assert(sid[i] as u8 == sb[i]);
    }
    assert forall|i: int| 0 <= i < kb.len() implies #[trigger] kb[i] != 59 && is_visible_ascii(kb[i]) by {
        assert(key_chars[i] as u8 == kb[i]);
    }
    assert(kb[0] == 115u8);
    lemma_ascii_chars_encode_of(sid);
}

/// The piece that carries the pair, after optional white space, offers
/// exactly the id.
proof fn lemma_pair_piece(gap: Seq<u8>, sid: Seq<char>)
    requires
        sid.len() > 0,
        forall|i: int| 0 <= i < sid.len() ==> is_token_char(#[trigger] sid[i]),
        forall|i: int| 0 <= i < gap.len() ==> #[trigger] gap[i] == 32 || gap[i] == 9,
    ensures
        forall|i: int| 0 <= i < (gap + encode_utf8("session_id="@ + sid)).len() ==>
            #[trigger] (gap + encode_utf8("session_id="@ + sid))[i] != 59
            && is_visible_ascii((gap + encode_utf8("session_id="@ + sid))[i]),
        piece_ids(gap + encode_utf8("session_id="@ + sid)) == seq![encode_utf8(sid)],
{
    lemma_pair_bytes(sid);
    let kb = session_key();
    let sb = encode_utf8(sid);
    let pair = kb + sb;
    let mid = gap + pair;
    assert forall|i: int| 0 <= i < mid.len() implies #[trigger] mid[i] != 59 && is_visible_ascii(mid[i]) by {
        if i < gap.len() {
            assert(mid[i] == gap[i]);
        } else if i < gap.len() + kb.len() {
            assert(mid[i] == kb[i - gap.len()]);
        } else {
            assert(mid[i] == sb[i - gap.len() - kb.len()]);
        }
    }
    assert forall|i: int| 0 <= i < gap.len() implies is_ws(#[trigger] gap[i]) by {}
    assert(pair[0] == kb[0]);
    lemma_trim_start_gap(gap, pair);
    assert(pair.last() == sb.last());
    assert(trim_end(pair) == pair);
    assert(trim(mid) == pair);
    assert(pair.take(kb.len() as int) =~= kb);
    assert(pair.skip(kb.len() as int) =~= sb);
}

/// The pieces of a header with a `;`-free middle that is set off by `;`
/// (or by the ends) have that middle as a piece of their own.
proof fn lemma_middle_piece(head: Seq<u8>, mid: Seq<u8>, tail: Seq<u8>) -> (lr: (Seq<Seq<u8>>, Seq<Seq<u8>>))
    requires
        forall|i: int| 0 <= i < mid.len() ==> #[trigger] mid[i] != 59,
        head.len() == 0 || head.last() == 59,
        tail.len() == 0 || tail[0] == 59,
    ensures
        split_semicolons(head + mid + tail) == lr.0 + (seq![mid] + lr.1),
{
    lemma_split_single(mid);
    let left: Seq<Seq<u8>> = if head.len() == 0 {
        Seq::empty()
    } else {
        split_semicolons(head.drop_last())
    };
    let right: Seq<Seq<u8>> = if tail.len() == 0 {
        Seq::empty()
    } else {
        split_semicolons(tail.drop_first())
    };
    assert(split_semicolons(mid + tail) == seq![mid] + right) by {
        if tail.len() == 0 {
            assert(mid + tail =~= mid);
            assert(seq![mid] + right =~= seq![mid]);
        } else {
            assert(mid + tail =~= mid + seq![59u8] + tail.drop_first());
            lemma_split_concat(mid, tail.drop_first());
        }
    }
    let v = head + mid + tail;
    if head.len() == 0 {
        assert(v =~= mid + tail);
        assert(left + (seq![mid] + right) =~= seq![mid] + right);
    } else {
        assert(v =~= head.drop_last() + seq![59u8] + (mid + tail));
        lemma_split_concat(head.drop_last(), mid + tail);
    }
    (left, right)
}

/// A browser sends the session pair among its other cookies, each pair
/// separated by `;` and optional white space: the session id is still one
/// of those that the request offers.
pub proof fn lemma_session_pair_among_cookies(
    h: HeaderSeq,
    head: Seq<u8>,
    gap: Seq<u8>,
    sid: Seq<char>,
    tail: Seq<u8>,
)
    requires
        sid.len() > 0,
        forall|i: int| 0 <= i < sid.len() ==> is_token_char(#[trigger] sid[i]),
        head.len() == 0 || head.last() == 59,
        forall|i: int| 0 <= i < gap.len() ==> #[trigger] gap[i] == 32 || gap[i] == 9,
        tail.len() == 0 || tail[0] == 59,
        all_visible_ascii(head),
        all_visible_ascii(tail),
        header_get(h, "cookie"@) == Some(head + gap + encode_utf8("session_id="@ + sid) + tail),
    ensures
        exists|k: int| 0 <= k < session_ids(h).len() && ascii_chars(#[trigger] session_ids(h)[k]) == sid,
{
    lemma_pair_bytes(sid);
    lemma_pair_piece(gap, sid);
    let mid = gap + encode_utf8("session_id="@ + sid);
    let sb = encode_utf8(sid);
    let v = head + mid + tail;
    assert(v =~= head + gap + encode_utf8("session_id="@ + sid) + tail);
    let (left, right) = lemma_middle_piece(head, mid, tail);
    lemma_ids_concat(left, seq![mid] + right);
    lemma_ids_concat(seq![mid], right);
    assert(ids_of_pieces(seq![mid]) =~= piece_ids(mid)) by {
        assert(seq![mid].drop_last() =~= Seq::<Seq<u8>>::empty());
        assert(ids_of_pieces(Seq::<Seq<u8>>::empty()) == Seq::<Seq<u8>>::empty());
    }
    assert(all_visible_ascii(v)) by {
        assert forall|i: int| 0 <= i < v.len() implies is_visible_ascii(#[trigger] v[i]) by {
            if i < head.len() {
                assert(v[i] == head[i]);
            } else if i < head.len() + mid.len() {
                assert(v[i] == mid[i - head.len()]);
            } else {
                assert(v[i] == tail[i - head.len() - mid.len()]);
            }
        }
    }
    let ids = session_ids(h);
    let k = ids_of_pieces(left).len() as int;
    assert(ids == ids_of_pieces(left) + (seq![sb] + ids_of_pieces(right)));
    assert(ids[k] == sb);
}

/// A login's session cookie identifies its session: the id that the cookie
/// of `login_check` carries, sent back as the request's `cookie` header,
/// is the one id that the request offers.
pub proof fn lemma_login_cookie_identifies_session(h: HeaderSeq, id: u128)
    requires
        header_get(h, "cookie"@) == Some(encode_utf8("session_id="@ + uuid_text(id))),
    ensures
        session_ids(h).len() == 1,
        ascii_chars(session_ids(h)[0]) == uuid_text(id),
{
    lemma_uuid_text_chars(id);
    lemma_session_cookie_read_back(h, uuid_text(id));
}

} // verus!
