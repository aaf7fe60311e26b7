//! Structured value types carried by the `http-request` operation, and
//! their record cell codecs.

use vstd::prelude::*;
use vstd::slice::{slice_index_get, slice_subrange};
use crate::codec::{
    decode_entries_slice, decode_text_cell, encode_entries_vec, encode_text_cell, entries_bytes,
    find_entry, lookup, parse_entries, parse_text_cell, text_cell, views_of, Entry, EntryV,
    TAG_LINK, TAG_MAP, TAG_RECORD, TAG_TEXT,
};
use crate::bytes_util::push_bytes;
use vstd::utf8::encode_utf8;

verus! {

broadcast use vstd::utf8::encode_utf8_valid_utf8, vstd::utf8::encode_utf8_decode_utf8;

/// An opaque reference to a linked collaborator, carried through the
/// boundary as text and only interpreted by the host.
#[derive(Debug)]
pub struct LinkRef {
    pub target: String,
}

impl View for LinkRef {
    type V = Seq<char>;

    open spec fn view(&self) -> Seq<char> {
        self.target@
    }
}

/// The input record of the `http-request` operation.
#[derive(Debug)]
pub struct HttpRequest {
    pub url: String,
    pub method: String,
    pub link: LinkRef,
}

/// Mathematical model of an [`HttpRequest`].
#[verifier::ext_equal]
pub struct HttpRequestV {
    pub url: Seq<char>,
    pub method: Seq<char>,
    pub link: Seq<char>,
}

impl View for HttpRequest {
    type V = HttpRequestV;

    open spec fn view(&self) -> HttpRequestV {
        HttpRequestV { url: self.url@, method: self.method@, link: self.link@ }
    }
}

/// The named fields of a request record, in declared order.
pub open spec fn http_request_entries(r: HttpRequestV) -> Seq<EntryV> {
    seq![
        EntryV { name: "url"@, value: text_cell(r.url, TAG_TEXT) },
        EntryV { name: "method"@, value: text_cell(r.method, TAG_TEXT) },
        EntryV { name: "link"@, value: text_cell(r.link, TAG_LINK) },
    ]
}

/// The record cell encoding of a request.
pub open spec fn http_request_cell(r: HttpRequestV) -> Seq<u8> {
    seq![TAG_RECORD] + entries_bytes(http_request_entries(r))
}

/// The parse of a cell as a request record.
pub open spec fn parse_http_request_cell(b: Seq<u8>) -> Option<HttpRequestV> {
    if b.len() < 1 || b[0] != TAG_RECORD {
        None
    } else {
        match parse_entries(b.skip(1)) {
            Option::None => None,
            Option::Some(es) => parse_http_request_fields(es),
        }
    }
}

/// The parse of an entry sequence as the three request fields.
pub open spec fn parse_http_request_fields(es: Seq<EntryV>) -> Option<HttpRequestV> {
    match lookup(es, "url"@) {
        Option::None => None,
        Option::Some(uc) => match parse_text_cell(uc, TAG_TEXT) {
            Option::None => None,
            Option::Some(url) => match lookup(es, "method"@) {
                Option::None => None,
                Option::Some(mc) => match parse_text_cell(mc, TAG_TEXT) {
                    Option::None => None,
                    Option::Some(method) => match lookup(es, "link"@) {
                        Option::None => None,
                        Option::Some(lc) => match parse_text_cell(lc, TAG_LINK) {
                            Option::None => None,
                            Option::Some(link) => Some(HttpRequestV { url, method, link }),
                        },
                    },
                },
            },
        },
    }
}

/// Round trip: a request record cell parses back to the request it
/// encodes. The bounds only keep each field within the wire format's
/// 64-bit lengths.
pub proof fn lemma_http_request_cell_round_trip(r: HttpRequestV)
    requires
        encode_utf8(r.url).len() + 1 < 0x1_0000_0000_0000_0000,
        encode_utf8(r.method).len() + 1 < 0x1_0000_0000_0000_0000,
        encode_utf8(r.link).len() + 1 < 0x1_0000_0000_0000_0000,
    ensures
        parse_http_request_cell(http_request_cell(r)) == Some(r),
{
    let es = http_request_entries(r);
    let b = http_request_cell(r);
    reveal_strlit("url");
    reveal_strlit("method");
    reveal_strlit("link");
    assert(vstd::utf8::is_ascii_chars("url"@));
    assert(vstd::utf8::is_ascii_chars("method"@));
    assert(vstd::utf8::is_ascii_chars("link"@));
    crate::codec::lemma_ascii_encode_len("url"@);
    crate::codec::lemma_ascii_encode_len("method"@);
    crate::codec::lemma_ascii_encode_len("link"@);
    assert(crate::codec::entries_wf(es));
    crate::codec::lemma_parse_entries_round_trip(es);
    assert(b.skip(1) =~= crate::codec::entries_bytes(es));
    assert("url"@.len() == 3 && "method"@.len() == 6 && "link"@.len() == 4);
    reveal_with_fuel(lookup, 4);
    assert(lookup(es, "url"@) == Some(text_cell(r.url, TAG_TEXT)));
    assert(es.drop_first()[0] == es[1] && es.drop_first().drop_first()[0] == es[2]);
    assert(lookup(es, "method"@) == Some(text_cell(r.method, TAG_TEXT)));
    assert(lookup(es, "link"@) == Some(text_cell(r.link, TAG_LINK)));
    crate::codec::lemma_text_cell_round_trip(r.url, TAG_TEXT);
    crate::codec::lemma_text_cell_round_trip(r.method, TAG_TEXT);
    crate::codec::lemma_text_cell_round_trip(r.link, TAG_LINK);
    assert(parse_http_request_fields(es) == Some(r));
}

/// Encodes a request as a record cell.
pub fn encode_http_request(r: &HttpRequest) -> (out: Vec<u8>)
    ensures
        out@ == http_request_cell(r@),
{
    let mut entries: Vec<Entry> = Vec::new();
    entries.push(Entry { name: "url".to_owned(), value: encode_text_cell(r.url.as_str(), TAG_TEXT) });
    entries.push(
        Entry { name: "method".to_owned(), value: encode_text_cell(r.method.as_str(), TAG_TEXT) },
    );
    entries.push(
        Entry { name: "link".to_owned(), value: encode_text_cell(r.link.target.as_str(), TAG_LINK) },
    );
    proof {
        assert(views_of(entries@) =~= http_request_entries(r@));
    }
    let body = encode_entries_vec(&entries);
    let mut out: Vec<u8> = Vec::new();
    out.push(TAG_RECORD);
    push_bytes(&mut out, body.as_slice());
    proof {
        assert(out@ =~= http_request_cell(r@));
    }
    out
}

/// Parses a cell as a request record.
pub fn decode_http_request(b: &[u8]) -> (r: Option<HttpRequest>)
    ensures
        r is Some <==> parse_http_request_cell(b@) is Some,
        r is Some ==> parse_http_request_cell(b@) == Some(r->0@),
{
    if b.len() < 1 {
        return None;
    }
    let head = *slice_index_get(b, 0);
    if head != TAG_RECORD {
        return None;
    }
    let rest = slice_subrange(b, 1, b.len());
    proof {
        assert(rest@ =~= b@.skip(1));
    }
    let entries = match decode_entries_slice(rest) {
        Some(entries) => entries,
        None => {
            return None;
        },
    };
    let url = match find_entry(&entries, "url") {
        Some(cell) => match decode_text_cell(cell.as_slice(), TAG_TEXT) {
            Some(url) => url,
            None => {
                return None;
            },
        },
        None => {
            return None;
        },
    };
    let method = match find_entry(&entries, "method") {
        Some(cell) => match decode_text_cell(cell.as_slice(), TAG_TEXT) {
            Some(method) => method,
            None => {
                return None;
            },
        },
        None => {
            return None;
        },
    };
    let link = match find_entry(&entries, "link") {
        Some(cell) => match decode_text_cell(cell.as_slice(), TAG_LINK) {
            Some(link) => link,
            None => {
                return None;
            },
        },
        None => {
            return None;
        },
    };
    Some(HttpRequest { url, method, link: LinkRef { target: link } })
}

/// The output record of the `http-request` operation.
#[derive(Debug)]
pub struct HttpResponse {
    pub body: String,
    pub headers: Vec<(String, String)>,
}

/// Mathematical model of an [`HttpResponse`].
#[verifier::ext_equal]
pub struct HttpResponseV {
    pub body: Seq<char>,
    pub headers: Seq<(Seq<char>, Seq<char>)>,
}

/// The models of a header list.
pub open spec fn headers_view(hs: Seq<(String, String)>) -> Seq<(Seq<char>, Seq<char>)> {
    hs.map_values(|p: (String, String)| (p.0@, p.1@))
}

impl View for HttpResponse {
    type V = HttpResponseV;

    open spec fn view(&self) -> HttpResponseV {
        HttpResponseV { body: self.body@, headers: headers_view(self.headers@) }
    }
}

/// Each header as an entry whose cell is its text value.
pub open spec fn header_entries(hs: Seq<(Seq<char>, Seq<char>)>) -> Seq<EntryV> {
    hs.map_values(|p: (Seq<char>, Seq<char>)| EntryV { name: p.0, value: text_cell(p.1, TAG_TEXT) })
}

/// The map cell encoding of a header list.
pub open spec fn map_cell(hs: Seq<(Seq<char>, Seq<char>)>) -> Seq<u8> {
    seq![TAG_MAP] + entries_bytes(header_entries(hs))
}

/// The parse of an entry sequence as a header list.
pub open spec fn parse_headers(es: Seq<EntryV>) -> Option<Seq<(Seq<char>, Seq<char>)>>
    decreases es.len(),
{
    if es.len() == 0 {
        Some(Seq::empty())
    } else {
        match parse_text_cell(es[0].value, TAG_TEXT) {
            Option::None => None,
            Option::Some(v) => match parse_headers(es.drop_first()) {
                Option::None => None,
                Option::Some(rest) => Some(seq![(es[0].name, v)] + rest),
            },
        }
    }
}

/// The parse of a cell as a header list.
pub open spec fn parse_map_cell(b: Seq<u8>) -> Option<Seq<(Seq<char>, Seq<char>)>> {
    if b.len() < 1 || b[0] != TAG_MAP {
        None
    } else {
        match parse_entries(b.skip(1)) {
            Option::None => None,
            Option::Some(es) => parse_headers(es),
        }
    }
}

/// The record cell encoding of a response.
pub open spec fn http_response_cell(r: HttpResponseV) -> Seq<u8> {
    seq![TAG_RECORD] + entries_bytes(
        seq![
            EntryV { name: "body"@, value: text_cell(r.body, TAG_TEXT) },
            EntryV { name: "headers"@, value: map_cell(r.headers) },
        ],
    )
}

/// The parse of a cell as a response record.
pub open spec fn parse_http_response_cell(b: Seq<u8>) -> Option<HttpResponseV> {
    if b.len() < 1 || b[0] != TAG_RECORD {
        None
    } else {
        match parse_entries(b.skip(1)) {
            Option::None => None,
            Option::Some(es) => match lookup(es, "body"@) {
                Option::None => None,
                Option::Some(bc) => match parse_text_cell(bc, TAG_TEXT) {
                    Option::None => None,
                    Option::Some(body) => match lookup(es, "headers"@) {
                        Option::None => None,
                        Option::Some(hc) => match parse_map_cell(hc) {
                            Option::None => None,
                            Option::Some(headers) => Some(HttpResponseV { body, headers }),
                        },
                    },
                },
            },
        }
    }
}

/// Round trip: a header list parses back from its own entries.
pub proof fn lemma_parse_headers_round_trip(hs: Seq<(Seq<char>, Seq<char>)>)
    ensures
        parse_headers(header_entries(hs)) == Some(hs),
    decreases hs.len(),
{
    let es = header_entries(hs);
    if hs.len() == 0 {
        assert(es.len() == 0);
        assert(Seq::<(Seq<char>, Seq<char>)>::empty() =~= hs);
    } else {
        crate::codec::lemma_text_cell_round_trip(hs[0].1, TAG_TEXT);
        assert(es.drop_first() =~= header_entries(hs.drop_first()));
        lemma_parse_headers_round_trip(hs.drop_first());
        assert(es[0].name == hs[0].0 && es[0].value == text_cell(hs[0].1, TAG_TEXT));
        assert(seq![(hs[0].0, hs[0].1)] + hs.drop_first() =~= hs);
    }
}

/// Round trip: a response record cell parses back to the response it
/// encodes. The bounds only keep the record within the wire format's
/// 64-bit lengths.
pub proof fn lemma_http_response_cell_round_trip(r: HttpResponseV)
    requires
        encode_utf8(r.body).len() + 1 < 0x1_0000_0000_0000_0000,
        crate::codec::entries_wf(header_entries(r.headers)),
        map_cell(r.headers).len() < 0x1_0000_0000_0000_0000,
    ensures
        parse_http_response_cell(http_response_cell(r)) == Some(r),
{
    let inner = header_entries(r.headers);
    let es = seq![
        EntryV { name: "body"@, value: text_cell(r.body, TAG_TEXT) },
        EntryV { name: "headers"@, value: map_cell(r.headers) },
    ];
    let b = http_response_cell(r);
    reveal_strlit("body");
    reveal_strlit("headers");
    assert(vstd::utf8::is_ascii_chars("body"@));
    assert(vstd::utf8::is_ascii_chars("headers"@));
    crate::codec::lemma_ascii_encode_len("body"@);
    crate::codec::lemma_ascii_encode_len("headers"@);
    assert(crate::codec::entries_wf(es));
    crate::codec::lemma_parse_entries_round_trip(es);
    assert(b.skip(1) =~= crate::codec::entries_bytes(es));
    assert("body"@.len() == 4 && "headers"@.len() == 7);
    reveal_with_fuel(lookup, 3);
    assert(lookup(es, "body"@) == Some(text_cell(r.body, TAG_TEXT)));
    assert(es.drop_first()[0] == es[1]);
    assert(lookup(es, "headers"@) == Some(map_cell(r.headers)));
    crate::codec::lemma_text_cell_round_trip(r.body, TAG_TEXT);
    let mc = map_cell(r.headers);
    assert(mc.skip(1) =~= crate::codec::entries_bytes(inner));
    crate::codec::lemma_parse_entries_round_trip(inner);
    lemma_parse_headers_round_trip(r.headers);
    assert(parse_map_cell(mc) == Some(r.headers));
}

/// Encodes a header list as a map cell.
pub fn encode_headers(hs: &Vec<(String, String)>) -> (out: Vec<u8>)
    ensures
        out@ == map_cell(headers_view(hs@)),
{
    let mut entries: Vec<Entry> = Vec::new();
    let n = hs.len();
    let mut i: usize = 0;
    proof {
        assert(views_of(entries@) =~= header_entries(headers_view(hs@.take(0))));
    }
    while i < n
        invariant
            n == hs@.len(),
            i <= n,
            views_of(entries@) == header_entries(headers_view(hs@.take(i as int))),
        decreases n - i,
    {
        let name = hs[i].0.clone();
        let value = encode_text_cell(hs[i].1.as_str(), TAG_TEXT);
        let entry = Entry { name, value };
        proof {
            let hv = headers_view(hs@.take(i as int));
            let p = (hs@[i as int].0@, hs@[i as int].1@);
            assert(headers_view(hs@.take(i + 1)) =~= hv.push(p));
            assert(header_entries(hv.push(p)) =~= header_entries(hv).push(
                EntryV { name: p.0, value: text_cell(p.1, TAG_TEXT) },
            ));
            assert(entry@ =~= (EntryV { name: p.0, value: text_cell(p.1, TAG_TEXT) }));
            assert(views_of(entries@.push(entry)) =~= views_of(entries@).push(entry@));
            assert(views_of(entries@.push(entry)) == header_entries(headers_view(hs@.take(i + 1))));
        }
        entries.push(entry);
        i = i + 1;
    }
    proof {
        assert(hs@.take(n as int) =~= hs@);
    }
    let body = encode_entries_vec(&entries);
    let mut out: Vec<u8> = Vec::new();
    out.push(TAG_MAP);
    push_bytes(&mut out, body.as_slice());
    proof {
        assert(out@ =~= map_cell(headers_view(hs@)));
    }
    out
}

/// Prepends already-decoded headers to the outcome of parsing the rest.
pub open spec fn headers_combine(
    prefix: Seq<(Seq<char>, Seq<char>)>,
    rest: Option<Seq<(Seq<char>, Seq<char>)>>,
) -> Option<Seq<(Seq<char>, Seq<char>)>> {
    match rest {
        Option::None => None,
        Option::Some(r) => Some(prefix + r),
    }
}

/// Parses a cell as a header list.
pub fn decode_headers(b: &[u8]) -> (r: Option<Vec<(String, String)>>)
    ensures
        r is Some <==> parse_map_cell(b@) is Some,
        r is Some ==> parse_map_cell(b@) == Some(headers_view(r->0@)),
{
    if b.len() < 1 {
        return None;
    }
    let head = *slice_index_get(b, 0);
    if head != TAG_MAP {
        return None;
    }
    let rest = slice_subrange(b, 1, b.len());
    proof {
        assert(rest@ =~= b@.skip(1));
    }
    let entries = match decode_entries_slice(rest) {
        Some(entries) => entries,
        None => {
            return None;
        },
    };
    let mut acc: Vec<(String, String)> = Vec::new();
    let n = entries.len();
    let mut i: usize = 0;
    proof {
        assert(entries@.skip(0) =~= entries@);
        assert(headers_view(acc@) =~= Seq::<(Seq<char>, Seq<char>)>::empty());
        if parse_headers(views_of(entries@)) is Some {
            assert(Seq::<(Seq<char>, Seq<char>)>::empty() + parse_headers(views_of(entries@))->0
                =~= parse_headers(views_of(entries@))->0);
        }
    }
    while i < n
        invariant
            n == entries@.len(),
            i <= n,
            parse_map_cell(b@) == headers_combine(
                headers_view(acc@),
                parse_headers(views_of(entries@.skip(i as int))),
            ),
        decreases n - i,
    {
        let ghost s = views_of(entries@.skip(i as int));
        proof {
            assert(s[0] == entries@[i as int]@);
            assert(s.drop_first() =~= views_of(entries@.skip(i + 1)));
        }
        let value = match decode_text_cell(entries[i].value.as_slice(), TAG_TEXT) {
            Some(value) => value,
            None => {
                return None;
            },
        };
        let name = entries[i].name.clone();
        let pair = (name, value);
        proof {
            assert(headers_view(acc@.push(pair)) =~= headers_view(acc@) + seq![
                (pair.0@, pair.1@),
            ]);
            if parse_headers(views_of(entries@.skip(i + 1))) is Some {
                assert((headers_view(acc@) + seq![(pair.0@, pair.1@)]) + parse_headers(
                    views_of(entries@.skip(i + 1)),
                )->0 =~= headers_view(acc@) + (seq![(pair.0@, pair.1@)] + parse_headers(
                    views_of(entries@.skip(i + 1)),
                )->0));
            }
        }
        acc.push(pair);
        i = i + 1;
    }
    proof {
        assert(views_of(entries@.skip(n as int)).len() == 0);
        assert(headers_view(acc@) + Seq::<(Seq<char>, Seq<char>)>::empty() =~= headers_view(acc@));
    }
    Some(acc)
}

/// Encodes a response as a record cell.
pub fn encode_http_response(r: &HttpResponse) -> (out: Vec<u8>)
    ensures
        out@ == http_response_cell(r@),
{
    let mut entries: Vec<Entry> = Vec::new();
    entries.push(
        Entry { name: "body".to_owned(), value: encode_text_cell(r.body.as_str(), TAG_TEXT) },
    );
    entries.push(Entry { name: "headers".to_owned(), value: encode_headers(&r.headers) });
    proof {
        assert(views_of(entries@) =~= seq![
            EntryV { name: "body"@, value: text_cell(r@.body, TAG_TEXT) },
            EntryV { name: "headers"@, value: map_cell(r@.headers) },
        ]);
    }
    let body = encode_entries_vec(&entries);
    let mut out: Vec<u8> = Vec::new();
    out.push(TAG_RECORD);
    push_bytes(&mut out, body.as_slice());
    proof {
        assert(out@ =~= http_response_cell(r@));
    }
    out
}

/// Parses a cell as a response record.
pub fn decode_http_response(b: &[u8]) -> (r: Option<HttpResponse>)
    ensures
        r is Some <==> parse_http_response_cell(b@) is Some,
        r is Some ==> parse_http_response_cell(b@) == Some(r->0@),
{
    if b.len() < 1 {
        return None;
    }
    let head = *slice_index_get(b, 0);
    if head != TAG_RECORD {
        return None;
    }
    let rest = slice_subrange(b, 1, b.len());
    proof {
        assert(rest@ =~= b@.skip(1));
    }
    let entries = match decode_entries_slice(rest) {
        Some(entries) => entries,
        None => {
            return None;
        },
    };
    let body = match find_entry(&entries, "body") {
        Some(cell) => match decode_text_cell(cell.as_slice(), TAG_TEXT) {
            Some(body) => body,
            None => {
                return None;
            },
        },
        None => {
            return None;
        },
    };
    let headers = match find_entry(&entries, "headers") {
        Some(cell) => match decode_headers(cell.as_slice()) {
            Some(headers) => headers,
            None => {
                return None;
            },
        },
        None => {
            return None;
        },
    };
    Some(HttpResponse { body, headers })
}

} // verus!
