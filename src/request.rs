//! Requests and their fingerprints: the identity under which the queue deduplicates.
use vstd::prelude::*;
use vstd::string::*;

use crate::address::{opt_url_view, parsed_url, url_shape, Url, UrlView};
use crate::text::{
    decimal, is_digit, lemma_decimal_digits, lemma_decimal_injective, lemma_split_at_first_stop,
    lemma_split_at_last_stop, push_decimal,
};

verus! {

/// A page to fetch.
#[derive(Debug, Clone, PartialEq, Eq)]
pub struct Request {
    pub url: Url,
}

/// What a 64-bit SipHash with zero keys makes of a text, hashed as a `str`.
pub uninterp spec fn text_hash(s: Seq<char>) -> u64;

/// Relies on `std::hash::SipHasher::new` (fixed zero keys) fed by `Hash for str`:
/// the hash depends on the text alone.
#[verifier::external_body]
#[allow(deprecated)]
fn sip_hash(s: &str) -> (r: u64)
    ensures
        r == text_hash(s@),
{
    let mut hasher = std::hash::SipHasher::new();
    std::hash::Hash::hash(s, &mut hasher);
    std::hash::Hasher::finish(&hasher)
}

pub open spec fn text_or_empty(o: Option<Seq<char>>) -> Seq<char> {
    match o {
        Some(s) => s,
        None => Seq::empty(),
    }
}

/// The canonical form of a URL, `scheme://host:port path?query`: a missing host is
/// empty, a missing port (one with no well-known default) is 0, a missing query is
/// empty, and the fragment is left out.
pub open spec fn canonical_key(u: UrlView) -> Seq<char> {
    u.scheme + seq![':', '/', '/'] + text_or_empty(u.host) + seq![':'] + decimal(
        match u.port {
            Some(p) => p as nat,
            None => 0,
        },
    ) + u.path + seq!['?'] + text_or_empty(u.query)
}

/// The fingerprint of a URL: the hash of its canonical form.
pub open spec fn fingerprint_of(u: UrlView) -> u64 {
    text_hash(canonical_key(u))
}

/// Fingerprints ignore fragments: two URLs that agree on scheme, host, port, path and
/// query have the same fingerprint, whatever their fragments.
pub proof fn lemma_fingerprint_ignores_fragment(a: UrlView, b: UrlView)
    requires
        a.scheme == b.scheme,
        a.host == b.host,
        a.port == b.port,
        a.path == b.path,
        a.query == b.query,
    ensures
        fingerprint_of(a) == fingerprint_of(b),
{
}

/// The port that a canonical form spells out: the URL's, or 0.
pub open spec fn port_or_zero(u: UrlView) -> nat {
    match u.port {
        Some(p) => p as nat,
        None => 0,
    }
}

/// Distinct pages have distinct canonical forms: of two URLs with a host and of the
/// shape that the parser gives every URL, equal canonical forms mean equal scheme,
/// host, port, path and query (a missing query counting as empty). A fingerprint is
/// the hash of this form, so such URLs that differ in any of these have different
/// fingerprints unless the hash collides.
pub proof fn lemma_canonical_key_injective(a: UrlView, b: UrlView)
    requires
        url_shape(a),
        url_shape(b),
        a.host.is_some(),
        b.host.is_some(),
        canonical_key(a) == canonical_key(b),
    ensures
        a.scheme == b.scheme,
        a.host == b.host,
        port_or_zero(a) == port_or_zero(b),
        a.path == b.path,
        text_or_empty(a.query) == text_or_empty(b.query),
{
    let colon = |c: char| c == ':';
    let slash_or_mark = |c: char| c == '/' || c == '?';
    let mark = |c: char| c == '?';
    let (sa, ha, da, pa, qa) = (
        a.scheme,
        text_or_empty(a.host),
        decimal(port_or_zero(a)),
        a.path,
        text_or_empty(a.query),
    );
    let (sb, hb, db, pb, qb) = (
        b.scheme,
        text_or_empty(b.host),
        decimal(port_or_zero(b)),
        b.path,
        text_or_empty(b.query),
    );
    lemma_decimal_digits(port_or_zero(a));
    lemma_decimal_digits(port_or_zero(b));
    let ta = pa + (seq!['?'] + qa);
    let tb = pb + (seq!['?'] + qb);
    let aa = ha + (seq![':'] + da);
    let ab = hb + (seq![':'] + db);
    let resta = seq![':', '/', '/'] + (aa + ta);
    let restb = seq![':', '/', '/'] + (ab + tb);
    assert(canonical_key(a) =~= sa + resta);
    assert(canonical_key(b) =~= sb + restb);
    // The scheme ends at the first ':'.
    assert(forall|i: int| 0 <= i < sa.len() ==> !colon(#[trigger] sa[i]));
    assert(forall|i: int| 0 <= i < sb.len() ==> !colon(#[trigger] sb[i]));
    lemma_split_at_first_stop(sa, resta, sb, restb, colon);
    assert(aa + ta =~= resta.subrange(3, resta.len() as int));
    assert(ab + tb =~= restb.subrange(3, restb.len() as int));
    // The authority ends at the first '/' or '?'.
    assert forall|i: int| 0 <= i < aa.len() implies !slash_or_mark(#[trigger] aa[i]) by {
        if i > ha.len() {
            assert(aa[i] == da[i - ha.len() - 1]);
            assert(is_digit(da[i - ha.len() - 1]));
        }
    }
    assert forall|i: int| 0 <= i < ab.len() implies !slash_or_mark(#[trigger] ab[i]) by {
        if i > hb.len() {
            assert(ab[i] == db[i - hb.len() - 1]);
            assert(is_digit(db[i - hb.len() - 1]));
        }
    }
    assert(slash_or_mark(ta[0]));
    assert(slash_or_mark(tb[0]));
    lemma_split_at_first_stop(aa, ta, ab, tb, slash_or_mark);
    // The host ends at the last ':' of the authority.
    let ca = seq![':'] + da;
    let cb = seq![':'] + db;
    assert forall|i: int| 1 <= i < ca.len() implies !colon(#[trigger] ca[i]) by {
        assert(ca[i] == da[i - 1]);
        assert(is_digit(da[i - 1]));
    }
    assert forall|i: int| 1 <= i < cb.len() implies !colon(#[trigger] cb[i]) by {
        assert(cb[i] == db[i - 1]);
        assert(is_digit(db[i - 1]));
    }
    lemma_split_at_last_stop(ha, ca, hb, cb, colon);
    assert(da =~= ca.drop_first());
    assert(db =~= cb.drop_first());
    lemma_decimal_injective(port_or_zero(a), port_or_zero(b));
    // The path ends at the first '?'.
    assert(forall|i: int| 0 <= i < pa.len() ==> !mark(#[trigger] pa[i]));
    assert(forall|i: int| 0 <= i < pb.len() ==> !mark(#[trigger] pb[i]));
    lemma_split_at_first_stop(pa, seq!['?'] + qa, pb, seq!['?'] + qb, mark);
    assert(qa =~= (seq!['?'] + qa).drop_first());
    assert(qb =~= (seq!['?'] + qb).drop_first());
}

impl Request {
    pub fn new(url: Url) -> (r: Request)
        ensures
            r.url == url,
    {
        Request { url }
    }

    /// The request for a text that is known to parse as an absolute URL.
    pub fn from_str(url: &str) -> (r: Request)
        requires
            parsed_url(url@).is_some(),
        ensures
            Some(r.url@) == parsed_url(url@),
    {
        match Url::parse(url) {
            Some(u) => Request::new(u),
            None => vstd::pervasive::unreached(),
        }
    }

    /// The request for a text, where it parses as an absolute URL.
    pub fn parse(url: &str) -> (r: Option<Request>)
        ensures
            r.is_some() == parsed_url(url@).is_some(),
            r.is_some() ==> Some(r.unwrap().url@) == parsed_url(url@),
    {
        let parsed = Url::parse(url);
        if parsed.is_some() {
            Some(Request::from_str(url))
        } else {
            None
        }
    }

    /// The canonical form of this request's URL, as text.
    pub fn canonical_key(&self) -> (r: String)
        ensures
            r@ == canonical_key(self.url@),
    {
        let url = &self.url;
        let mut key = String::from_str(url.scheme());
        key.append("://");
        match url.host_str() {
            Some(h) => key.append(h),
            None => {},
        }
        key.append(":");
        let port: u16 = match url.port_or_known_default() {
            Some(p) => p,
            None => 0,
        };
        push_decimal(&mut key, port);
        key.append(url.path());
        key.append("?");
        match url.query() {
            Some(q) => key.append(q),
            None => {},
        }
        proof {
            reveal_strlit("://");
            reveal_strlit(":");
            reveal_strlit("?");
            assert(key@ =~= canonical_key(self.url@));
        }
        key
    }

    /// The 64-bit identity of this request: equal for URLs that differ only in
    /// their fragment.
    pub fn get_fingerprint(&self) -> (r: u64)
        ensures
            r == fingerprint_of(self.url@),
    {
        let key = self.canonical_key();
        sip_hash(key.as_str())
    }
}

} // verus!
