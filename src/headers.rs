//! Reading cookies out of `Cookie` request header values.
use vstd::prelude::*;
use crate::policy::{CookieKind, EncryptionCookiePolicy};

verus! {

/// The pieces of `s` between semicolons, as `str::split(';')` yields them.
pub open spec fn split_semicolons(s: Seq<char>) -> Seq<Seq<char>>
    decreases s.len(),
{
    if s.len() == 0 {
        seq![Seq::<char>::empty()]
    } else {
        let p = split_semicolons(s.drop_last());
        if s.last() == ';' {
            p.push(Seq::<char>::empty())
        } else {
            p.update(p.len() - 1, p.last().push(s.last()))
        }
    }
}

pub proof fn lemma_split_nonempty(s: Seq<char>)
    ensures
        split_semicolons(s).len() >= 1,
    decreases s.len(),
{
    if s.len() > 0 {
        lemma_split_nonempty(s.drop_last());
    }
}

/// The name and value that the cookie crate's `Cookie::parse_encoded` reads
/// from one piece of a header (after trimming and percent-decoding), or
/// `None` where it rejects the piece.
pub uninterp spec fn parsed_cookie(piece: Seq<char>) -> Option<(Seq<char>, Seq<char>)>;

/// Relies on `cookie::Cookie::parse_encoded`: the piece's name and value, or
/// `None` where the piece is not a cookie.
#[verifier::external_body]
fn parse_piece(piece: &str) -> (r: Option<(String, String)>)
    ensures
        r is None <==> parsed_cookie(piece@) is None,
        r is Some ==> r->Some_0.0@ == parsed_cookie(piece@)->Some_0.0 && r->Some_0.1@
            == parsed_cookie(piece@)->Some_0.1,
{
    match cookie::Cookie::parse_encoded(piece.to_owned()) {
        Ok(c) => Some((c.name().to_owned(), c.value().to_owned())),
        Err(_) => None,
    }
}

/// The cookies that a list of pieces holds, in order.
pub open spec fn parse_pieces(pieces: Seq<Seq<char>>) -> Seq<(Seq<char>, Seq<char>)>
    decreases pieces.len(),
{
    if pieces.len() == 0 {
        Seq::empty()
    } else {
        let rest = parse_pieces(pieces.drop_last());
        match parsed_cookie(pieces.last()) {
            Some(c) => rest.push(c),
            None => rest,
        }
    }
}

/// The cookies of all header values, in order.
pub open spec fn header_cookies(headers: Seq<Seq<char>>) -> Seq<(Seq<char>, Seq<char>)>
    decreases headers.len(),
{
    if headers.len() == 0 {
        Seq::empty()
    } else {
        header_cookies(headers.drop_last()) + parse_pieces(split_semicolons(headers.last()))
    }
}

/// The texts of header values.
pub open spec fn header_texts(headers: Seq<String>) -> Seq<Seq<char>> {
    headers.map_values(|h: String| h@)
}

/// A request cookie: a name and its value.
#[derive(Debug, Clone, PartialEq, Eq)]
pub struct Cookie {
    name: String,
    value: String,
}

impl View for Cookie {
    type V = (Seq<char>, Seq<char>);

    closed spec fn view(&self) -> (Seq<char>, Seq<char>) {
        (self.name@, self.value@)
    }
}

impl Cookie {
    pub fn new(name: &str, value: &str) -> (r: Cookie)
        ensures
            r@ == (name@, value@),
    {
        Cookie { name: name.to_owned(), value: value.to_owned() }
    }

    pub fn name(&self) -> (r: &str)
        ensures
            r@ == self@.0,
    {
        self.name.as_str()
    }

    pub fn value(&self) -> (r: &str)
        ensures
            r@ == self@.1,
    {
        self.value.as_str()
    }
}

/// The views of a list of cookies.
pub open spec fn cookie_views(cs: Seq<Cookie>) -> Seq<(Seq<char>, Seq<char>)> {
    cs.map_values(|c: Cookie| c@)
}

/// Appends the cookies of one header value to `out`.
fn push_header_cookies(header: &str, out: &mut Vec<Cookie>)
    ensures
        cookie_views(final(out)@) == cookie_views(old(out)@) + parse_pieces(split_semicolons(header@)),
{
    let n = header.unicode_len();
    let mut start: usize = 0;
    let mut i: usize = 0;
    let ghost mut done: Seq<Seq<char>> = Seq::empty();
    let ghost base = cookie_views(out@);
    assert(header@.take(0) =~= Seq::<char>::empty());
    assert(done.push(header@.subrange(0, 0)) =~= seq![Seq::<char>::empty()]);
    assert(cookie_views(out@) =~= base + parse_pieces(done));
    while i < n
        invariant
            n == header@.len(),
            start <= i <= n,
            split_semicolons(header@.take(i as int)) == done.push(header@.subrange(start as int, i as int)),
            cookie_views(out@) == base + parse_pieces(done),
        decreases n - i,
    {
        let c = header.get_char(i);
        proof {
            let t = header@.take(i + 1);
            assert(t.drop_last() =~= header@.take(i as int));
            assert(t.last() == c);
        }
        if c == ';' {
            let piece = header.substring_char(start, i);
            let parsed = parse_piece(piece);
            let ghost before = out@;
            match parsed {
                Some((name, value)) => {
                    out.push(Cookie { name, value });
                },
                None => {},
            }
            proof {
                let d2 = done.push(piece@);
                assert(d2.drop_last() =~= done);
                if parsed is Some {
                    assert(cookie_views(out@) =~= cookie_views(before).push(parsed_cookie(piece@)->Some_0));
                } else {
                    assert(out@ =~= before);
                }
                assert(cookie_views(out@) =~= base + parse_pieces(d2));
                done = d2;
                assert(header@.subrange(i + 1, i + 1) =~= Seq::<char>::empty());
            }
            start = i + 1;
        } else {
            proof {
                lemma_split_nonempty(header@.take(i as int));
                assert(header@.subrange(start as int, i + 1) =~= header@.subrange(start as int, i as int).push(c));
                assert(done.push(header@.subrange(start as int, i as int)).update(
                    done.len() as int,
                    header@.subrange(start as int, i + 1),
                ) =~= done.push(header@.subrange(start as int, i + 1)));
            }
        }
        i = i + 1;
    }
    let piece = header.substring_char(start, n);
    let parsed = parse_piece(piece);
    let ghost before = out@;
    match parsed {
        Some((name, value)) => {
            out.push(Cookie { name, value });
        },
        None => {},
    }
    proof {
        assert(header@.take(n as int) =~= header@);
        let d2 = done.push(piece@);
        assert(d2.drop_last() =~= done);
        if parsed is Some {
            assert(cookie_views(out@) =~= cookie_views(before).push(parsed_cookie(piece@)->Some_0));
        } else {
            assert(out@ =~= before);
        }
        assert(cookie_views(out@) =~= base + parse_pieces(d2));
    }
}

/// The cookies of the `Cookie` header values, in order; pieces that are not
/// cookies are skipped.
pub fn cookies_from_request(headers: &[String]) -> (r: Vec<Cookie>)
    ensures
        cookie_views(r@) == header_cookies(header_texts(headers@)),
{
    let ghost hs = header_texts(headers@);
    let mut out: Vec<Cookie> = Vec::new();
    let mut i: usize = 0;
    assert(cookie_views(out@) =~= header_cookies(hs.take(0)));
    while i < headers.len()
        invariant
            i <= headers@.len(),
            hs == header_texts(headers@),
            cookie_views(out@) == header_cookies(hs.take(i as int)),
        decreases headers@.len() - i,
    {
        push_header_cookies(headers[i].as_str(), &mut out);
        proof {
            assert(hs.take(i + 1).drop_last() =~= hs.take(i as int));
            assert(hs.take(i + 1).last() == headers@[i as int]@);
        }
        i = i + 1;
    }
    assert(hs.take(i as int) =~= hs);
    out
}

/// A cookie together with the kind that the policy gives it.
#[derive(Debug, Clone)]
pub struct TypedCookie {
    cookie: Cookie,
    kind: CookieKind,
}

impl TypedCookie {
    pub closed spec fn cookie_view(&self) -> (Seq<char>, Seq<char>) {
        self.cookie@
    }

    pub closed spec fn kind_view(&self) -> CookieKind {
        self.kind
    }

    pub fn into_cookie(self) -> (r: Cookie)
        ensures
            r@ == self.cookie_view(),
    {
        self.cookie
    }

    pub fn kind(&self) -> (r: CookieKind)
        ensures
            r == self.kind_view(),
    {
        self.kind
    }
}

/// The request's cookies, each with its kind under `policy`.
pub fn typed_cookies_from_request(headers: &[String], policy: &EncryptionCookiePolicy) -> (r: Vec<TypedCookie>)
    requires
        policy.wf(),
    ensures
        r@.len() == header_cookies(header_texts(headers@)).len(),
        forall|i: int| 0 <= i < r@.len() ==> (#[trigger] r@[i]).cookie_view() == header_cookies(
            header_texts(headers@),
        )[i] && r@[i].kind_view() == policy.kind_of(r@[i].cookie_view().0),
{
    let cookies = cookies_from_request(headers);
    let mut out: Vec<TypedCookie> = Vec::new();
    let mut i: usize = 0;
    while i < cookies.len()
        invariant
            i <= cookies@.len(),
            policy.wf(),
            cookie_views(cookies@) == header_cookies(header_texts(headers@)),
            out@.len() == i,
            forall|j: int| 0 <= j < i ==> (#[trigger] out@[j]).cookie_view() == cookies@[j]@
                && out@[j].kind_view() == policy.kind_of(out@[j].cookie_view().0),
        decreases cookies@.len() - i,
    {
        let c = cookies[i].clone();
        let kind = policy.cookie_kind(cookies[i].name());
        out.push(TypedCookie { cookie: Cookie::new(cookies[i].name(), cookies[i].value()), kind });
        i = i + 1;
    }
    proof {
        assert forall|j: int| 0 <= j < out@.len() implies (#[trigger] out@[j]).cookie_view()
            == header_cookies(header_texts(headers@))[j] by {
            assert(cookie_views(cookies@)[j] == cookies@[j]@);
        }
    }
    out
}

/// The first cookie in `cs` named `name`.
pub open spec fn first_named(cs: Seq<(Seq<char>, Seq<char>)>, name: Seq<char>) -> Option<(Seq<char>, Seq<char>)>
    decreases cs.len(),
{
    if cs.len() == 0 {
        None
    } else if cs[0].0 == name {
        Some(cs[0])
    } else {
        first_named(cs.drop_first(), name)
    }
}

/// The first request cookie named `cookie_name`, if any.
pub fn session_cookie(headers: &[String], cookie_name: &str) -> (r: Option<Cookie>)
    ensures
        r is None <==> first_named(header_cookies(header_texts(headers@)), cookie_name@) is None,
        r is Some ==> r->Some_0@ == first_named(header_cookies(header_texts(headers@)), cookie_name@)->Some_0,
{
    let cookies = cookies_from_request(headers);
    let ghost all = cookie_views(cookies@);
    let target = cookie_name.to_owned();
    let mut i: usize = 0;
    assert(all.subrange(0, all.len() as int) =~= all);
    while i < cookies.len()
        invariant
            i <= cookies@.len(),
            all == cookie_views(cookies@),
            all == header_cookies(header_texts(headers@)),
            target@ == cookie_name@,
            first_named(all, cookie_name@) == first_named(all.subrange(i as int, all.len() as int), cookie_name@),
        decreases cookies@.len() - i,
    {
        let name = cookies[i].name().to_owned();
        let ghost rest = all.subrange(i as int, all.len() as int);
        assert(rest[0] == cookies@[i as int]@);
        if name == target {
            let found = Cookie::new(cookies[i].name(), cookies[i].value());
            assert(first_named(rest, cookie_name@) == Some(rest[0]));
            return Some(found);
        }
        assert(rest.drop_first() =~= all.subrange(i + 1, all.len() as int));
        i = i + 1;
    }
    assert(all.subrange(i as int, all.len() as int).len() == 0);
    None
}

} // verus!
