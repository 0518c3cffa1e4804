//! Header lines: building the `http` crate's header map from interface header
//! lists, and reading a header map back into an interface header list.

use vstd::prelude::*;
use vstd::utf8::{encode_utf8, is_ascii_chars, is_ascii_chars_encode_utf8};
use crate::http_ext::{
    all_visible_ascii, ascii_chars, ascii_lower_seq, entries_insert, first_index, has_name,
    name_differs,
    header_map_entries, header_map_new, header_map_text_entries, header_map_try_insert,
    header_map_try_insert_lowercase, is_header_char, is_header_value_char, is_lower_header_char,
    is_visible_ascii, valid_header_name, valid_header_value, valid_lower_header_name, HeaderEntry,
};
use crate::std_ext::{to_lowercase, unicode_lowercase};
use crate::wit::{headers_view, Headers};

verus! {

/// The most header lines that one header map is built from. `HeaderMap::insert`
/// panics once the map outgrows its capacity limit, at a size that depends on
/// the hashes of the names; below this count it cannot, whatever the hashes.
pub open spec fn header_count_ok(n: nat) -> bool {
    n < 6553
}

/// One header line: its name and its value.
pub type Line = (Seq<char>, Seq<char>);

/// The name that `str::to_lowercase` gives for a name: ASCII lowercase for
/// ASCII text, the Unicode lowercase mapping otherwise.
pub open spec fn host_lowercase(s: Seq<char>) -> Seq<char> {
    if is_ascii_chars(s) {
        ascii_lower_seq(s)
    } else {
        unicode_lowercase(s)
    }
}

/// The name under which a line is inserted: lowercased by `HeaderName::from_str`,
/// or, on the host's side, by `str::to_lowercase` before `HeaderName::from_lowercase`.
pub open spec fn line_name(line: Line, host: bool) -> Seq<char> {
    if host {
        host_lowercase(line.0)
    } else {
        ascii_lower_seq(line.0)
    }
}

/// Whether a line is accepted: its name by `HeaderName::from_str` (on the
/// host's side, its lowercased name by `HeaderName::from_lowercase`), and its
/// value by `HeaderValue::from_str`.
pub open spec fn line_valid(line: Line, host: bool) -> bool {
    &&& if host {
        valid_lower_header_name(host_lowercase(line.0))
    } else {
        valid_header_name(line.0)
    }
    &&& valid_header_value(line.1)
}

/// Whether every line of a list is accepted.
pub open spec fn lines_valid(hs: Seq<Line>, host: bool) -> bool {
    forall|i: int| 0 <= i < hs.len() ==> line_valid(#[trigger] hs[i], host)
}

/// The pairs of the header map built by inserting every line in order, each
/// name as [`line_name`] gives it and each value as its UTF-8 bytes: a repeated
/// name keeps the place of its first line and the value of its last.
pub open spec fn spec_build_headers(hs: Seq<Line>, host: bool) -> Seq<HeaderEntry>
    decreases hs.len(),
{
    if hs.len() == 0 {
        Seq::empty()
    } else {
        entries_insert(
            spec_build_headers(hs.drop_last(), host),
            line_name(hs.last(), host),
            encode_utf8(hs.last().1),
        )
    }
}

/// Every line of a header list has a name that `HeaderName::from_str` accepts
/// and a value that `HeaderValue::from_str` accepts.
pub open spec fn headers_valid(hs: Seq<Line>) -> bool {
    lines_valid(hs, false)
}

/// The pairs of the header map that the endpoint library builds from a list.
pub open spec fn spec_create_headers(hs: Seq<Line>) -> Seq<HeaderEntry> {
    spec_build_headers(hs, false)
}

/// Every line of a header list has a name whose lowercase
/// `HeaderName::from_lowercase` accepts and a value `HeaderValue::from_str` accepts.
pub open spec fn headers_valid_lowercased(hs: Seq<Line>) -> bool {
    lines_valid(hs, true)
}

/// The pairs of the header map that the host builds from a list.
pub open spec fn spec_create_headers_lowercased(hs: Seq<Line>) -> Seq<HeaderEntry> {
    spec_build_headers(hs, true)
}

/// The interface header list read from a header map's pairs, or `None` when
/// some value holds a byte that is neither visible ASCII nor tab.
pub open spec fn spec_headers_to_wit(es: Seq<HeaderEntry>) -> Option<Seq<(Seq<char>, Seq<char>)>> {
    if forall|i: int| 0 <= i < es.len() ==> all_visible_ascii(#[trigger] es[i].1) {
        Some(es.map_values(|e: HeaderEntry| (e.0, ascii_chars(e.1))))
    } else {
        None
    }
}

/// Reading a header map gives one line per pair of the map, in the map's
/// order, whether or not names repeat: line `i` is the name of pair `i` and
/// the text of its value. It fails exactly when some value is not visible
/// ASCII or tab.
pub proof fn lemma_headers_to_wit_pairs(es: Seq<HeaderEntry>)
    ensures
        spec_headers_to_wit(es) is Some <==> forall|i: int|
            0 <= i < es.len() ==> all_visible_ascii(#[trigger] es[i].1),
        spec_headers_to_wit(es) matches Some(h) ==> h.len() == es.len() && forall|i: int|
            0 <= i < es.len() ==> #[trigger] h[i] == (es[i].0, ascii_chars(es[i].1)),
{
}

/// Where the first pair of a name stands.
pub proof fn lemma_first_index(es: Seq<HeaderEntry>, name: Seq<char>)
    ensures
        0 <= first_index(es, name) <= es.len(),
        has_name(es, name) <==> first_index(es, name) < es.len(),
        first_index(es, name) < es.len() ==> es[first_index(es, name)].0 == name,
        forall|j: int| 0 <= j < first_index(es, name) ==> (#[trigger] es[j]).0 != name,
    decreases es.len(),
{
    if es.len() > 0 && es[0].0 != name {
        let rest = es.drop_first();
        lemma_first_index(rest, name);
        assert forall|j: int| 0 <= j < first_index(es, name) implies (#[trigger] es[j]).0 != name by {
            if j > 0 {
                assert(es[j] == rest[j - 1]);
            }
        }
        if has_name(es, name) {
            let w = choose|i: int| 0 <= i < es.len() && es[i].0 == name;
            assert(rest[w - 1].0 == name);
        }
        if has_name(rest, name) {
            let w = choose|i: int| 0 <= i < rest.len() && rest[i].0 == name;
            assert(es[w + 1].0 == name);
        }
    } else if es.len() > 0 {
        assert(es[0].0 == name);
    }
}

/// Inserting one pair adds at most one pair.
pub proof fn lemma_entries_insert_len(es: Seq<HeaderEntry>, name: Seq<char>, value: Seq<u8>)
    ensures
        entries_insert(es, name, value).len() <= es.len() + 1,
{
    lemma_first_index(es, name);
    if has_name(es, name) {
        let i = first_index(es, name);
        let rest = es.skip(i + 1);
        rest.lemma_filter_len(name_differs(name));
    }
}

proof fn lemma_build_len(hs: Seq<Line>, host: bool)
    ensures
        spec_build_headers(hs, host).len() <= hs.len(),
    decreases hs.len(),
{
    if hs.len() > 0 {
        lemma_build_len(hs.drop_last(), host);
        lemma_entries_insert_len(
            spec_build_headers(hs.drop_last(), host),
            line_name(hs.last(), host),
            encode_utf8(hs.last().1),
        );
    }
}

/// Inserts the lines one by one, answering `None` at the first refused line.
fn build_headers(headers: &Headers, host: bool) -> (r: Option<http::HeaderMap>)
    requires
        header_count_ok(headers@.len()),
    ensures
        r is Some <==> lines_valid(headers_view(headers@), host),
        r matches Some(map) ==> header_map_entries(map) == spec_build_headers(
            headers_view(headers@),
            host,
        ),
{
    let ghost hv = headers_view(headers@);
    let mut map = header_map_new();
    let n = headers.len();
    for i in 0..n
        invariant
            n == headers@.len(),
            hv == headers_view(headers@),
            header_count_ok(n as nat),
            lines_valid(hv.take(i as int), host),
            header_map_entries(map) == spec_build_headers(hv.take(i as int), host),
    {
        proof {
            lemma_build_len(hv.take(i as int), host);
            assert(hv.take(i + 1).drop_last() =~= hv.take(i as int));
            assert(hv[i as int] == (headers@[i as int].0@, headers@[i as int].1@));
        }
        let inserted = if host {
            let name = to_lowercase(headers[i].0.as_str());
            header_map_try_insert_lowercase(&mut map, name.as_str(), headers[i].1.as_str())
        } else {
            header_map_try_insert(&mut map, headers[i].0.as_str(), headers[i].1.as_str())
        };
        match inserted {
            Ok(()) => {
                proof {
                    assert forall|j: int| 0 <= j < i + 1 implies line_valid(
                        #[trigger] hv.take(i + 1)[j],
                        host,
                    ) by {
                        if j < i {
                            assert(hv.take(i + 1)[j] == hv.take(i as int)[j]);
                        }
                    }
                }
            },
            Err(_) => {
                return None;
            },
        }
    }
    proof {
        assert(hv.take(n as int) =~= hv);
    }
    Some(map)
}

/// Builds a header map from a header list, as the endpoint library does:
/// every line is inserted in order, so a repeated name (compared after
/// lowercasing) keeps the value of its last line. A name or value that the
/// `http` crate refuses would make the insertion panic, so every line must be
/// accepted.
pub fn create_http_headers(headers: Headers) -> (map: http::HeaderMap)
    requires
        headers_valid(headers_view(headers@)),
        header_count_ok(headers@.len()),
    ensures
        header_map_entries(map) == spec_create_headers(headers_view(headers@)),
{
    match build_headers(&headers, false) {
        Some(map) => map,
        None => header_map_new(),
    }
}

/// As [`create_http_headers`], but answering `None`, instead of requiring
/// otherwise, exactly when some name or value is refused.
pub fn try_create_http_headers(headers: &Headers) -> (r: Option<http::HeaderMap>)
    requires
        header_count_ok(headers@.len()),
    ensures
        r is Some <==> headers_valid(headers_view(headers@)),
        r matches Some(map) ==> header_map_entries(map) == spec_create_headers(
            headers_view(headers@),
        ),
{
    build_headers(headers, false)
}

/// Builds a header map as the host does for a component's response: each name
/// goes through `str::to_lowercase` and `HeaderName::from_lowercase`, each
/// value through `HeaderValue::from_str`. A refused line would make the
/// insertion panic, so every line must be accepted.
pub fn create_http_headers_lowercased(headers: Headers) -> (map: http::HeaderMap)
    requires
        headers_valid_lowercased(headers_view(headers@)),
        header_count_ok(headers@.len()),
    ensures
        header_map_entries(map) == spec_create_headers_lowercased(headers_view(headers@)),
{
    match build_headers(&headers, true) {
        Some(map) => map,
        None => header_map_new(),
    }
}

/// As [`create_http_headers_lowercased`], but answering `None`, instead of
/// requiring otherwise, exactly when some lowercased name or some value is refused.
pub fn try_create_http_headers_lowercased(headers: &Headers) -> (r: Option<http::HeaderMap>)
    requires
        header_count_ok(headers@.len()),
    ensures
        r is Some <==> headers_valid_lowercased(headers_view(headers@)),
        r matches Some(map) ==> header_map_entries(map) == spec_create_headers_lowercased(
            headers_view(headers@),
        ),
{
    build_headers(headers, true)
}

/// Reads a header map into an interface header list (the header loop of the
/// conversions to the interface records): the pairs in the map's
/// order, each value as text; the first value that is not visible ASCII or tab
/// stops the reading with the error of `HeaderValue::to_str`.
pub fn headers_to_wit(map: &http::HeaderMap) -> (r: Result<Headers, http::header::ToStrError>)
    ensures
        r is Ok <==> spec_headers_to_wit(header_map_entries(*map)) is Some,
        r matches Ok(h) ==> headers_view(h@) == spec_headers_to_wit(
            header_map_entries(*map),
        )->Some_0,
        r is Ok <==> forall|i: int|
            0 <= i < header_map_entries(*map).len() ==> all_visible_ascii(
                #[trigger] header_map_entries(*map)[i].1,
            ),
        r matches Ok(h) ==> h@.len() == header_map_entries(*map).len() && forall|i: int|
            0 <= i < h@.len() ==> (#[trigger] h@[i]).0@ == header_map_entries(*map)[i].0
                && h@[i].1@ == ascii_chars(header_map_entries(*map)[i].1),
{
    let ghost es = header_map_entries(*map);
    let mut entries = header_map_text_entries(map);
    let ghost all = entries@;
    let total = entries.len();
    let mut out: Headers = Vec::new();
    let mut k: usize = 0;
    while entries.len() > 0
        invariant
            es == header_map_entries(*map),
            es.len() == all.len(),
            all.len() == total,
            k + entries@.len() == all.len(),
            entries@ == all.skip(k as int),
            forall|i: int|
                0 <= i < all.len() ==> {
                    let e = es[i];
                    &&& (#[trigger] all[i]).0@ == e.0
                    &&& (all[i].1 is Ok <==> all_visible_ascii(e.1))
                    &&& (all[i].1 matches Ok(s) ==> s@ == ascii_chars(e.1))
                },
            out@.len() == k,
            forall|j: int| 0 <= j < k ==> all_visible_ascii(#[trigger] es[j].1),
            headers_view(out@) =~= es.take(k as int).map_values(
                |e: HeaderEntry| (e.0, ascii_chars(e.1)),
            ),
        decreases entries@.len(),
    {
        let ghost before = entries@;
        let (name, value) = entries.remove(0);
        proof {
            assert(before[0] == all[k as int]);
            assert(entries@ =~= all.skip(k + 1));
        }
        match value {
            Ok(text) => {
                let ghost prev = out@;
                out.push((name, text));
                proof {
                    assert(es.take(k + 1) =~= es.take(k as int).push(es[k as int]));
                    assert(out@ =~= prev.push(out@[k as int]));
                    assert(headers_view(out@) =~= headers_view(prev).push(
                        (out@[k as int].0@, out@[k as int].1@),
                    ));
                }
                k = k + 1;
            },
            Err(e) => {
                proof {
                    assert(!all_visible_ascii(es[k as int].1));
                }
                return Err(e);
            },
        }
    }
    proof {
        assert(es.take(k as int) =~= es);
        assert forall|i: int| 0 <= i < out@.len() implies (#[trigger] out@[i]).0@ == es[i].0
            && out@[i].1@ == ascii_chars(es[i].1) by {
            assert(headers_view(out@)[i] == (out@[i].0@, out@[i].1@));
        }
    }
    Ok(out)
}

} // verus!

verus! {

/// A character that `HeaderValue::to_str` gives back: tab or visible ASCII.
pub open spec fn is_visible_ascii_char(c: char) -> bool {
    (c as int) == 9 || (32 <= (c as int) && (c as int) < 127)
}

/// A text of tab and visible ASCII only.
pub open spec fn visible_text(s: Seq<char>) -> bool {
    forall|k: int| 0 <= k < s.len() ==> is_visible_ascii_char(#[trigger] s[k])
}

/// A header list in the one form that survives a trip through a header map:
/// names already lowercase and valid, no name twice, and values of visible
/// ASCII or tab.
pub open spec fn headers_canonical(hs: Seq<(Seq<char>, Seq<char>)>) -> bool {
    &&& forall|i: int|
        0 <= i < hs.len() ==> valid_lower_header_name((#[trigger] hs[i]).0) && visible_text(
            hs[i].1,
        )
    &&& forall|i: int, j: int|
        0 <= i < hs.len() && 0 <= j < hs.len() && i != j ==> (#[trigger] hs[i]).0 != (
        #[trigger] hs[j]).0
}

/// The pairs a header map holds for a canonical list: the names, and the
/// values' UTF-8 bytes.
pub open spec fn canonical_entries(hs: Seq<(Seq<char>, Seq<char>)>) -> Seq<HeaderEntry> {
    hs.map_values(|h: (Seq<char>, Seq<char>)| (h.0, encode_utf8(h.1)))
}

proof fn lemma_lower_name_unchanged(s: Seq<char>)
    requires
        valid_lower_header_name(s),
    ensures
        ascii_lower_seq(s) == s,
{
    assert forall|i: int| 0 <= i < s.len() implies ascii_lower_seq(s)[i] == s[i] by {
        assert(is_lower_header_char(s[i]));
    }
    assert(ascii_lower_seq(s) =~= s);
}

pub proof fn lemma_visible_text_bytes(v: Seq<char>)
    requires
        visible_text(v),
    ensures
        all_visible_ascii(encode_utf8(v)),
        ascii_chars(encode_utf8(v)) == v,
{
    assert(is_ascii_chars(v)) by {
        assert forall|k: int| 0 <= k < v.len() implies '\0' <= #[trigger] v[k] <= '\u{7f}' by {
            assert(is_visible_ascii_char(v[k]));
        }
    }
    is_ascii_chars_encode_utf8(v);
    let b = encode_utf8(v);
    assert forall|k: int| 0 <= k < b.len() implies #[trigger] is_visible_ascii(b[k]) by {
        assert(is_visible_ascii_char(v[k]));
        assert(v[k] as u8 == b[k]);
    }
    assert forall|k: int| 0 <= k < v.len() implies ascii_chars(b)[k] == v[k] by {
        assert(is_visible_ascii_char(v[k]));
        assert(v[k] as u8 == b[k]);
        let c = v[k];
        assert((c as int) < 128);
        assert(((c as u8) as char) == c);
    }
    assert(ascii_chars(b) =~= v);
}

pub proof fn lemma_create_canonical(hs: Seq<(Seq<char>, Seq<char>)>)
    requires
        headers_canonical(hs),
    ensures
        spec_create_headers(hs) == canonical_entries(hs),
    decreases hs.len(),
{
    if hs.len() > 0 {
        let pre = hs.drop_last();
        assert(headers_canonical(pre)) by {
            assert forall|i: int, j: int|
                0 <= i < pre.len() && 0 <= j < pre.len() && i != j implies (#[trigger] pre[i]).0
                != (#[trigger] pre[j]).0 by {
                assert(pre[i] == hs[i] && pre[j] == hs[j]);
            }
            assert forall|i: int| 0 <= i < pre.len() implies valid_lower_header_name(
                (#[trigger] pre[i]).0,
            ) && visible_text(pre[i].1) by {
                assert(pre[i] == hs[i]);
            }
        }
        lemma_create_canonical(pre);
        let last = hs.last();
        let n = hs.len() - 1;
        assert(valid_lower_header_name(hs[n].0));
        lemma_lower_name_unchanged(last.0);
        let es = canonical_entries(pre);
        assert(!has_name(es, last.0)) by {
            if has_name(es, last.0) {
                let w = choose|i: int| 0 <= i < es.len() && es[i].0 == last.0;
                assert(hs[w].0 == hs[n].0);
            }
        }
        assert(canonical_entries(hs) =~= es.push((last.0, encode_utf8(last.1))));
    }
}

/// A canonical header list that is built into a header map and read back is
/// the same list.
pub proof fn lemma_headers_roundtrip(hs: Seq<(Seq<char>, Seq<char>)>)
    requires
        headers_canonical(hs),
    ensures
        headers_valid(hs),
        spec_headers_to_wit(spec_create_headers(hs)) == Some(hs),
{
    lemma_create_canonical(hs);
    let es = canonical_entries(hs);
    assert forall|i: int| 0 <= i < hs.len() implies valid_header_name((#[trigger] hs[i]).0)
        && valid_header_value(hs[i].1) by {
        let s = hs[i].0;
        assert(valid_lower_header_name(s));
        assert forall|k: int| 0 <= k < s.len() implies #[trigger] is_header_char(s[k]) by {
            assert(is_lower_header_char(s[k]));
        }
        assert forall|k: int| 0 <= k < hs[i].1.len() implies #[trigger] is_header_value_char(
            hs[i].1[k],
        ) by {
            assert(is_visible_ascii_char(hs[i].1[k]));
        }
    }
    assert forall|i: int| 0 <= i < es.len() implies all_visible_ascii(#[trigger] es[i].1) by {
        lemma_visible_text_bytes(hs[i].1);
    }
    let back = es.map_values(|e: HeaderEntry| (e.0, ascii_chars(e.1)));
    assert forall|i: int| 0 <= i < hs.len() implies #[trigger] back[i] == hs[i] by {
        lemma_visible_text_bytes(hs[i].1);
    }
    assert(back =~= hs);
}

} // verus!

verus! {

/// Header pairs that a header list can reproduce exactly: names lowercase and
/// valid, no name twice, values of visible ASCII or tab.
pub open spec fn entries_canonical(es: Seq<HeaderEntry>) -> bool {
    &&& forall|i: int|
        0 <= i < es.len() ==> valid_lower_header_name((#[trigger] es[i]).0) && all_visible_ascii(
            es[i].1,
        )
    &&& forall|i: int, j: int|
        0 <= i < es.len() && 0 <= j < es.len() && i != j ==> (#[trigger] es[i]).0 != (
        #[trigger] es[j]).0
}

/// Header pairs read into a header list and built back into a map are the
/// same pairs.
pub proof fn lemma_entries_roundtrip(es: Seq<HeaderEntry>)
    requires
        entries_canonical(es),
    ensures
        spec_headers_to_wit(es) is Some,
        headers_valid(spec_headers_to_wit(es)->Some_0),
        spec_create_headers(spec_headers_to_wit(es)->Some_0) == es,
{
    let hs = es.map_values(|e: HeaderEntry| (e.0, ascii_chars(e.1)));
    assert forall|i: int| 0 <= i < hs.len() implies valid_lower_header_name(
        (#[trigger] hs[i]).0,
    ) && visible_text(hs[i].1) by {
        let b = es[i].1;
        assert(all_visible_ascii(b));
        assert forall|k: int| 0 <= k < hs[i].1.len() implies is_visible_ascii_char(
            #[trigger] hs[i].1[k],
        ) by {
            assert(is_visible_ascii(b[k]));
        }
    }
    assert forall|i: int, j: int|
        0 <= i < hs.len() && 0 <= j < hs.len() && i != j implies (#[trigger] hs[i]).0 != (
        #[trigger] hs[j]).0 by {
        assert(es[i].0 != es[j].0);
    }
    lemma_create_canonical(hs);
    lemma_headers_roundtrip(hs);
    assert forall|i: int| 0 <= i < es.len() implies #[trigger] canonical_entries(hs)[i] == es[i] by {
        let b = es[i].1;
        let v = ascii_chars(b);
        assert(is_ascii_chars(v)) by {
            assert forall|k: int| 0 <= k < v.len() implies '\0' <= #[trigger] v[k] <= '\u{7f}' by {
                assert(is_visible_ascii(b[k]));
            }
        }
        is_ascii_chars_encode_utf8(v);
        assert forall|k: int| 0 <= k < b.len() implies #[trigger] encode_utf8(v)[k] == b[k] by {
            assert(v[k] as u8 == encode_utf8(v)[k]);
            assert(is_visible_ascii(b[k]));
        }
        assert(encode_utf8(v) =~= b);
    }
    assert(canonical_entries(hs) =~= es);
}

} // verus!

verus! {

// ---------------------------------------------------------------------------
// One value per name, the last one given; the order of distinct lines.
// ---------------------------------------------------------------------------

/// The UTF-8 bytes of the last line of a list whose name (as [`line_name`]
/// gives it) is `name`, or `None` when no line has that name.
pub open spec fn last_value(hs: Seq<Line>, name: Seq<char>, host: bool) -> Option<Seq<u8>>
    decreases hs.len(),
{
    if hs.len() == 0 {
        None
    } else if line_name(hs.last(), host) == name {
        Some(encode_utf8(hs.last().1))
    } else {
        last_value(hs.drop_last(), name, host)
    }
}

/// No name occurs twice among a map's pairs.
pub open spec fn names_distinct(es: Seq<HeaderEntry>) -> bool {
    forall|i: int, j: int|
        0 <= i < es.len() && 0 <= j < es.len() && i != j ==> (#[trigger] es[i]).0 != (
        #[trigger] es[j]).0
}

proof fn lemma_filter_keeps_all(s: Seq<HeaderEntry>, pred: spec_fn(HeaderEntry) -> bool)
    requires
        forall|k: int| 0 <= k < s.len() ==> pred(#[trigger] s[k]),
    ensures
        s.filter(pred) == s,
    decreases s.len(),
{
    reveal(Seq::filter);
    if s.len() > 0 {
        let pre = s.drop_last();
        assert forall|k: int| 0 <= k < pre.len() implies pred(#[trigger] pre[k]) by {
            assert(pre[k] == s[k]);
        }
        lemma_filter_keeps_all(pre, pred);
        assert(pred(s[s.len() - 1]));
        assert(pre.push(s.last()) =~= s);
    }
}

/// On pairs with distinct names, inserting replaces the value of an existing
/// name in place, and appends a new name.
pub proof fn lemma_insert_distinct(es: Seq<HeaderEntry>, name: Seq<char>, value: Seq<u8>)
    requires
        names_distinct(es),
    ensures
        has_name(es, name) ==> entries_insert(es, name, value) == es.update(
            first_index(es, name),
            (name, value),
        ),
        !has_name(es, name) ==> entries_insert(es, name, value) == es.push((name, value)),
        names_distinct(entries_insert(es, name, value)),
{
    lemma_first_index(es, name);
    if has_name(es, name) {
        let i = first_index(es, name);
        let rest = es.skip(i + 1);
        let pred = name_differs(name);
        assert forall|k: int| 0 <= k < rest.len() implies pred(#[trigger] rest[k]) by {
            assert(rest[k] == es[i + 1 + k]);
        }
        lemma_filter_keeps_all(rest, pred);
        assert(entries_insert(es, name, value) == es.take(i) + seq![(name, value)] + rest.filter(pred));
        assert(es.take(i) + seq![(name, value)] + rest =~= es.update(i, (name, value)));
        let r = es.update(i, (name, value));
        assert forall|a: int, b: int|
            0 <= a < r.len() && 0 <= b < r.len() && a != b implies (#[trigger] r[a]).0 != (
            #[trigger] r[b]).0 by {
            if a != i && b != i {
                assert(es[a].0 != es[b].0);
            } else if a == i {
                assert(es[b].0 != es[i].0);
            } else {
                assert(es[a].0 != es[i].0);
            }
        }
    } else {
        let r = es.push((name, value));
        assert forall|a: int, b: int|
            0 <= a < r.len() && 0 <= b < r.len() && a != b implies (#[trigger] r[a]).0 != (
            #[trigger] r[b]).0 by {
            if a < es.len() && b < es.len() {
                assert(es[a].0 != es[b].0);
            } else if a == es.len() {
                assert(r[b] == es[b]);
            } else {
                assert(r[a] == es[a]);
            }
        }
    }
}

/// However often a name is given, the map built from a list holds it once,
/// with the value of its last line; it holds exactly the names of the lines.
pub proof fn lemma_last_value_wins(hs: Seq<Line>, host: bool)
    ensures
        names_distinct(spec_build_headers(hs, host)),
        forall|n: Seq<char>|
            #[trigger] has_name(spec_build_headers(hs, host), n) <==> last_value(hs, n, host) is Some,
        forall|k: int|
            0 <= k < spec_build_headers(hs, host).len() ==> last_value(
                hs,
                (#[trigger] spec_build_headers(hs, host)[k]).0,
                host,
            ) == Some(spec_build_headers(hs, host)[k].1),
    decreases hs.len(),
{
    if hs.len() > 0 {
        let pre = hs.drop_last();
        lemma_last_value_wins(pre, host);
        let es = spec_build_headers(pre, host);
        let name = line_name(hs.last(), host);
        let value = encode_utf8(hs.last().1);
        lemma_insert_distinct(es, name, value);
        lemma_first_index(es, name);
        let r = spec_build_headers(hs, host);
        assert(r == entries_insert(es, name, value));
        assert forall|n: Seq<char>| #[trigger] has_name(r, n) <==> last_value(hs, n, host) is Some by {
            if n == name {
                assert(last_value(hs, n, host) is Some);
                if has_name(es, name) {
                    assert(r[first_index(es, name)].0 == n);
                } else {
                    assert(r[es.len() as int].0 == n);
                }
            } else {
                assert(last_value(hs, n, host) == last_value(pre, n, host));
                if has_name(r, n) {
                    let w = choose|i: int| 0 <= i < r.len() && r[i].0 == n;
                    assert(es[w].0 == n);
                }
                if has_name(es, n) {
                    let w = choose|i: int| 0 <= i < es.len() && es[i].0 == n;
                    assert(r[w].0 == n);
                }
            }
        }
        assert forall|k: int| 0 <= k < r.len() implies last_value(hs, (#[trigger] r[k]).0, host)
            == Some(r[k].1) by {
            if r[k].0 == name {
                if has_name(es, name) {
                    assert(k == first_index(es, name)) by {
                        if k != first_index(es, name) {
                            assert(r[first_index(es, name)].0 == name);
                        }
                    }
                } else {
                    assert(k == es.len()) by {
                        if k < es.len() {
                            assert(r[k] == es[k]);
                            assert(has_name(es, name));
                        }
                    }
                }
            } else {
                assert(r[k] == es[k]);
                assert(es[k].0 == r[k].0);
            }
        }
    }
}

/// The pairs hold every name of the lines once, and no other, each with the
/// value of the last line of that name.
pub open spec fn last_values_kept(es: Seq<HeaderEntry>, hs: Seq<Line>, host: bool) -> bool {
    &&& names_distinct(es)
    &&& forall|n: Seq<char>| #[trigger] has_name(es, n) <==> last_value(hs, n, host) is Some
    &&& forall|k: int|
        0 <= k < es.len() ==> last_value(hs, (#[trigger] es[k]).0, host) == Some(es[k].1)
}

/// The map built from any list of lines, repeated names or not, keeps the
/// last value of each name.
pub proof fn lemma_build_last_values(hs: Seq<Line>, host: bool)
    ensures
        last_values_kept(spec_build_headers(hs, host), hs, host),
{
    lemma_last_value_wins(hs, host);
}

/// The names of a list, as the map holds them, are pairwise different.
pub open spec fn line_names_distinct(hs: Seq<Line>, host: bool) -> bool {
    forall|i: int, j: int|
        0 <= i < hs.len() && 0 <= j < hs.len() && i != j ==> line_name(#[trigger] hs[i], host)
            != line_name(#[trigger] hs[j], host)
}

/// For lines whose names are pairwise different, the map holds one pair per
/// line, in the order of the lines.
pub proof fn lemma_build_distinct(hs: Seq<Line>, host: bool)
    requires
        line_names_distinct(hs, host),
    ensures
        spec_build_headers(hs, host) == hs.map_values(
            |h: Line| (line_name(h, host), encode_utf8(h.1)),
        ),
    decreases hs.len(),
{
    if hs.len() > 0 {
        let pre = hs.drop_last();
        assert(line_names_distinct(pre, host)) by {
            assert forall|i: int, j: int|
                0 <= i < pre.len() && 0 <= j < pre.len() && i != j implies line_name(
                #[trigger] pre[i],
                host,
            ) != line_name(#[trigger] pre[j], host) by {
                assert(pre[i] == hs[i] && pre[j] == hs[j]);
            }
        }
        lemma_build_distinct(pre, host);
        let es = spec_build_headers(pre, host);
        let name = line_name(hs.last(), host);
        assert(!has_name(es, name)) by {
            if has_name(es, name) {
                let w = choose|i: int| 0 <= i < es.len() && es[i].0 == name;
                assert(line_name(hs[w], host) == line_name(hs[hs.len() - 1], host));
            }
        }
        assert(hs.map_values(|h: Line| (line_name(h, host), encode_utf8(h.1))) =~= es.push(
            (name, encode_utf8(hs.last().1)),
        ));
    }
}

/// `p` lists the lines of `hs` in another order: line `i` of `p` is line
/// `perm[i]` of `hs`, and `perm` takes every position once.
pub open spec fn reorders(p: Seq<Line>, hs: Seq<Line>, perm: Seq<int>) -> bool {
    &&& p.len() == hs.len()
    &&& perm.len() == p.len()
    &&& forall|i: int| 0 <= i < p.len() ==> 0 <= #[trigger] perm[i] < hs.len() && p[i] == hs[perm[i]]
    &&& forall|i: int, j: int| 0 <= i < perm.len() && 0 <= j < perm.len() && i != j ==> #[trigger] perm[i] != #[trigger] perm[j]
}

/// Lines whose names are pairwise different build the same pairs in whatever
/// order they come: reordering the lines reorders the pairs alike.
pub proof fn lemma_build_reordered(hs: Seq<Line>, p: Seq<Line>, perm: Seq<int>, host: bool)
    requires
        line_names_distinct(hs, host),
        reorders(p, hs, perm),
    ensures
        spec_build_headers(p, host).len() == spec_build_headers(hs, host).len(),
        forall|i: int|
            0 <= i < p.len() ==> #[trigger] spec_build_headers(p, host)[i] == spec_build_headers(
                hs,
                host,
            )[perm[i]],
{
    assert(line_names_distinct(p, host)) by {
        assert forall|i: int, j: int|
            0 <= i < p.len() && 0 <= j < p.len() && i != j implies line_name(#[trigger] p[i], host)
            != line_name(#[trigger] p[j], host) by {
            assert(perm[i] != perm[j]);
            assert(p[i] == hs[perm[i]] && p[j] == hs[perm[j]]);
        }
    }
    lemma_build_distinct(hs, host);
    lemma_build_distinct(p, host);
}

/// Lines that the endpoint library accepts are all ASCII, so the host, which
/// lowercases with `str::to_lowercase`, accepts them too and builds the same map.
pub proof fn lemma_host_build_agrees(hs: Seq<Line>)
    requires
        headers_valid(hs),
    ensures
        headers_valid_lowercased(hs),
        spec_create_headers_lowercased(hs) == spec_create_headers(hs),
    decreases hs.len(),
{
    assert forall|i: int| 0 <= i < hs.len() implies line_valid(#[trigger] hs[i], true)
        && line_name(hs[i], true) == line_name(hs[i], false) by {
        let s = hs[i].0;
        assert(line_valid(hs[i], false));
        assert(is_ascii_chars(s)) by {
            assert forall|k: int| 0 <= k < s.len() implies '\0' <= #[trigger] s[k] <= '\u{7f}' by {
                assert(is_header_char(s[k]));
            }
        }
        let l = ascii_lower_seq(s);
        assert forall|k: int| 0 <= k < l.len() implies #[trigger] is_lower_header_char(l[k]) by {
            assert(is_header_char(s[k]));
        }
    }
    if hs.len() > 0 {
        let pre = hs.drop_last();
        assert(headers_valid(pre)) by {
            assert forall|i: int| 0 <= i < pre.len() implies line_valid(#[trigger] pre[i], false) by {
                assert(pre[i] == hs[i]);
            }
        }
        lemma_host_build_agrees(pre);
        assert(line_valid(hs[hs.len() - 1], true));
    }
}

} // verus!
