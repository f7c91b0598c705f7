use vstd::prelude::*;
use crate::text::{header_text, header_value_to_str, str_eq};

verus! {

broadcast use vstd::seq_lib::group_seq_properties;

/// One header line of a request: its name (the `http` crate hands names
/// over in lower case, and lookups here compare names exactly) and its raw
/// value bytes.
pub struct HeaderEntry {
    pub name: String,
    pub value: Vec<u8>,
}

/// The headers of a request, in the order in which `HeaderMap::iter` yields
/// them: a name that occurs several times has its values in arrival order.
pub struct Headers {
    pub entries: Vec<HeaderEntry>,
}

/// The model of a set of headers: (name, value bytes) pairs in order.
pub type HeaderSeq = Seq<(Seq<char>, Seq<u8>)>;

impl View for Headers {
    type V = HeaderSeq;

    open spec fn view(&self) -> HeaderSeq {
        self.entries@.map_values(|e: HeaderEntry| (e.name@, e.value@))
    }
}

/// The first value of a header, as `HeaderMap::get` returns it.
pub open spec fn header_get(h: HeaderSeq, name: Seq<char>) -> Option<Seq<u8>>
    decreases h.len(),
{
    if h.len() == 0 {
        None
    } else if h[0].0 == name {
        Some(h[0].1)
    } else {
        header_get(h.drop_first(), name)
    }
}

/// The last value of a header.
pub open spec fn header_get_last(h: HeaderSeq, name: Seq<char>) -> Option<Seq<u8>>
    decreases h.len(),
{
    if h.len() == 0 {
        None
    } else if h.last().0 == name {
        Some(h.last().1)
    } else {
        header_get_last(h.drop_last(), name)
    }
}

/// The text of a header value, or the empty string when the value is not
/// visible ASCII (`to_str().unwrap_or("")`).
pub open spec fn text_or_empty(bytes: Seq<u8>) -> Seq<char> {
    match header_text(bytes) {
        Some(t) => t,
        None => Seq::empty(),
    }
}

/// `pairs` is the string map of the headers `h`: it holds each header name
/// once, with the text of the last value of that name (the empty string
/// where that value is not visible ASCII), as collecting `HeaderMap::iter`
/// into a `HashMap<String, String>` leaves it.
pub open spec fn is_string_map_of(pairs: Seq<(Seq<char>, Seq<char>)>, h: HeaderSeq) -> bool {
    &&& forall|i: int, j: int| 0 <= i < j < pairs.len() ==> #[trigger] pairs[i].0 != #[trigger] pairs[j].0
    &&& forall|k: int| 0 <= k < pairs.len() ==> header_get_last(h, #[trigger] pairs[k].0) is Some
        && pairs[k].1 == text_or_empty(header_get_last(h, pairs[k].0).unwrap())
    &&& forall|i: int| 0 <= i < h.len() ==> exists|k: int| 0 <= k < pairs.len() && #[trigger] pairs[k].0 == #[trigger] h[i].0
}

/// The view of a list of string pairs.
pub open spec fn pairs_view(v: Seq<(String, String)>) -> Seq<(Seq<char>, Seq<char>)> {
    v.map_values(|p: (String, String)| (p.0@, p.1@))
}

/// The position of a name among collected pairs.
fn find_name(pairs: &Vec<(String, String)>, name: &str) -> (r: Option<usize>)
    ensures
        r matches Some(k) ==> k < pairs@.len() && pairs@[k as int].0@ == name@,
        r is None ==> forall|j: int| 0 <= j < pairs@.len() ==> #[trigger] pairs@[j].0@ != name@,
{
    let m = pairs.len();
    let mut k: usize = 0;
    while k < m
        invariant
            m == pairs@.len(),
            0 <= k <= m,
            forall|j: int| 0 <= j < k ==> #[trigger] pairs@[j].0@ != name@,
        decreases m - k,
    {
        if str_eq(pairs[k].0.as_str(), name) {
            return Some(k);
        }
        k = k + 1;
    }
    None
}

impl Headers {
    /// No headers.
    pub fn new() -> (h: Headers)
        ensures
            h@ == Seq::<(Seq<char>, Seq<u8>)>::empty(),
    {
        Headers { entries: Vec::new() }
    }

    /// Adds a value for a header after those already there.
    pub fn append(&mut self, name: &str, value: &[u8])
        ensures
            final(self)@ == old(self)@.push((name@, value@)),
    {
        let e = HeaderEntry { name: name.to_owned(), value: vstd::slice::slice_to_vec(value) };
        self.entries.push(e);
        assert(final(self)@ =~= old(self)@.push((name@, value@)));
    }

    /// The first value of a header, as `HeaderMap::get` returns it.
    pub fn get(&self, name: &str) -> (r: Option<&[u8]>)
        ensures
            r matches Some(v) ==> header_get(self@, name@) == Some(v@),
            r is None ==> header_get(self@, name@) is None,
    {
        let n = self.entries.len();
        let mut i: usize = 0;
        while i < n
            invariant
                n == self.entries@.len(),
                0 <= i <= n,
                header_get(self@, name@) == header_get(self@.skip(i as int), name@),
            decreases n - i,
        {
            let e = &self.entries[i];
            assert(self@.skip(i as int).drop_first() =~= self@.skip(i + 1));
            assert(self@.skip(i as int)[0] == self@[i as int]);
            if str_eq(e.name.as_str(), name) {
                return Some(e.value.as_slice());
            }
            i = i + 1;
        }
        assert(self@.skip(n as int).len() == 0);
        None
    }

    /// Whether a header is present, as `HeaderMap::contains_key` says.
    pub fn contains_key(&self, name: &str) -> (r: bool)
        ensures
            r == header_get(self@, name@) is Some,
    {
        self.get(name).is_some()
    }

    /// The headers as a map from name to text, as the event record keeps
    /// them: each name once, with the text of its last value, or the empty
    /// string where that value is not visible ASCII.
    pub fn to_string_map(&self) -> (m: Vec<(String, String)>)
        ensures
            is_string_map_of(pairs_view(m@), self@),
    {
        let n = self.entries.len();
        let mut out: Vec<(String, String)> = Vec::new();
        let mut i: usize = 0;
        while i < n
            invariant
                n == self.entries@.len(),
                0 <= i <= n,
                is_string_map_of(pairs_view(out@), self@.take(i as int)),
            decreases n - i,
        {
            let e = &self.entries[i];
            let text = match header_value_to_str(e.value.as_slice()) {
                Some(t) => t,
                None => String::new(),
            };
            let ghost h_old = self@.take(i as int);
            let ghost h_new = self@.take(i + 1);
            let ghost name = e.name@;
            assert(h_new.drop_last() =~= h_old);
            assert(h_new.last() == (e.name@, e.value@));
            assert(text@ == text_or_empty(e.value@));
            let ghost out_old = pairs_view(out@);
            let found = find_name(&out, e.name.as_str());
            proof {
                // every earlier header name is already present in the pairs
                assert forall|j: int| 0 <= j < i implies exists|kk: int|
                    0 <= kk < out_old.len() && #[trigger] out_old[kk].0 == #[trigger] h_new[j].0 by {
                    assert(h_new[j] == h_old[j]);
                    let kk = choose|kk: int| 0 <= kk < out_old.len() && #[trigger] out_old[kk].0 == h_old[j].0;
                    assert(out_old[kk].0 == h_new[j].0);
                }
            }
            if let Some(k) = found {
                let ghost old_view = pairs_view(out@);
                let key = out[k].0.clone();
                out.set(k, (key, text));
                proof {
                    let pv = pairs_view(out@);
                    assert(pv =~= old_view.update(k as int, (name, text_or_empty(e.value@))));
                    assert(pv[k as int].0 == name);
                    assert forall|a: int, b: int| 0 <= a < b < pv.len() implies #[trigger] pv[a].0
                        != #[trigger] pv[b].0 by {
                        assert(pv[a].0 == old_view[a].0);
                        assert(pv[b].0 == old_view[b].0);
                    }
                    assert forall|kk: int| 0 <= kk < pv.len() implies header_get_last(h_new, #[trigger] pv[kk].0) is Some
                        && pv[kk].1 == text_or_empty(header_get_last(h_new, pv[kk].0).unwrap()) by {
                        if kk != k {
                            assert(pv[kk] == old_view[kk]);
                            if kk < k {
                                assert(old_view[kk].0 != old_view[k as int].0);
                            } else {
                                assert(old_view[k as int].0 != old_view[kk].0);
                            }
                            assert(pv[kk].0 != name);
                        }
                    }
                    assert forall|j: int| 0 <= j < h_new.len() implies exists|kk: int|
                        0 <= kk < pv.len() && #[trigger] pv[kk].0 == #[trigger] h_new[j].0 by {
                        if j < i {
                            let kk = choose|kk: int|
                                0 <= kk < old_view.len() && #[trigger] old_view[kk].0 == h_new[j].0;
                            assert(pv[kk].0 == old_view[kk].0);
                        } else {
                            assert(pv[k as int].0 == h_new[j].0);
                        }
                    }
                }
            } else {
                let ghost old_view = pairs_view(out@);
                let key = e.name.clone();
                out.push((key, text));
                proof {
                    let pv = pairs_view(out@);
                    assert(pv =~= old_view.push((name, text_or_empty(e.value@))));
                    assert forall|a: int, b: int| 0 <= a < b < pv.len() implies #[trigger] pv[a].0
                        != #[trigger] pv[b].0 by {
                        if b == pv.len() - 1 {
                            assert(out@[a].0@ != name);
                        }
                    }
                    assert forall|kk: int| 0 <= kk < pv.len() implies header_get_last(h_new, #[trigger] pv[kk].0) is Some
                        && pv[kk].1 == text_or_empty(header_get_last(h_new, pv[kk].0).unwrap()) by {
                        if kk < pv.len() - 1 {
                            assert(pv[kk] == old_view[kk]);
                            assert(out@[kk].0@ != name);
                        }
                    }
                    assert forall|j: int| 0 <= j < h_new.len() implies exists|kk: int|
                        0 <= kk < pv.len() && #[trigger] pv[kk].0 == #[trigger] h_new[j].0 by {
                        if j < i {
                            let kk = choose|kk: int|
                                0 <= kk < old_view.len() && #[trigger] old_view[kk].0 == h_new[j].0;
                            assert(pv[kk].0 == old_view[kk].0);
                        } else {
                            assert(pv[pv.len() - 1].0 == h_new[j].0);
                        }
                    }
                }
            }
            i = i + 1;
        }
        assert(self@.take(n as int) =~= self@);
        out
    }
}

} // verus!
