//! Proxy addresses: `"host:port"` or `"user:pass@host:port"`.

use vstd::prelude::*;
use vstd::string::*;
use vstd::utf8::encode_utf8;

use crate::encoding::encode_base64;
use crate::encoding::{base64_bytes, base64_text};
use crate::text::{contains_char, text_after, text_before};
use crate::text::{
    after_first, after_last, before_first, law_first_mark_is, law_last_mark, law_last_mark_is,
    lemma_after_last, lemma_before_first,
};

verus! {

/// The credentials of a proxy address: what stands before the first `@`, where there is one.
pub open spec fn credentials(proxy: Seq<char>) -> Option<Seq<char>> {
    if proxy.contains('@') {
        Some(before_first(proxy, '@'))
    } else {
        None
    }
}

/// The host and port of a proxy address: what stands behind the last `@`, or all of it.
pub open spec fn host_port(proxy: Seq<char>) -> Seq<char> {
    after_last(proxy, '@')
}

/// The value of the `Proxy-Authorization` header for credentials.
pub open spec fn basic_authorization(creds: Seq<char>) -> Seq<char> {
    "Basic "@ + base64_text(encode_utf8(creds))
}

/// The credentials of a proxy address, where it has any.
pub fn proxy_credentials(proxy: &str) -> (r: Option<String>)
    ensures
        r is Some <==> credentials(proxy@) is Some,
        r matches Some(creds) ==> credentials(proxy@) == Some(creds@),
{
    if contains_char(proxy, '@') {
        Some(text_before(proxy, '@'))
    } else {
        None
    }
}

/// The host and port of a proxy address, without credentials.
pub fn proxy_host_port(proxy: &str) -> (r: String)
    ensures
        r@ == host_port(proxy@),
{
    text_after(proxy, '@')
}

/// The value of the `Proxy-Authorization` header for credentials. Who decodes what follows
/// `Basic ` gets them back.
pub fn proxy_authorization(creds: &str) -> (r: String)
    ensures
        r@ == basic_authorization(creds@),
        base64_bytes(r@.skip("Basic "@.len() as int)) == Some(encode_utf8(creds@)),
{
    let mut out: String = "Basic ".to_string();
    let encoded: String = encode_base64(creds);
    out.append(encoded.as_str());
    assert(out@.skip("Basic "@.len() as int) =~= encoded@);
    out
}

/// Law: the host and port never hold an `@`, and nothing in front of one.
pub proof fn law_host_port_has_no_credentials(proxy: Seq<char>)
    ensures
        !host_port(proxy).contains('@'),
        proxy == proxy.take(proxy.len() - host_port(proxy).len()) + host_port(proxy),
        credentials(proxy) is None ==> host_port(proxy) == proxy,
{
    lemma_after_last(proxy, '@');
    let n = proxy.len() - host_port(proxy).len();
    assert(proxy =~= proxy.take(n) + proxy.skip(n));
    if credentials(proxy) is None {
        assert(proxy.skip(0) =~= proxy);
    }
}

/// Law: an address with one `@` is its credentials, the `@`, and its host and port.
pub proof fn law_proxy_parts(proxy: Seq<char>)
    requires
        proxy.contains('@'),
        !after_first(proxy, '@').contains('@'),
    ensures
        credentials(proxy) is Some,
        proxy == credentials(proxy)->0 + seq!['@'] + host_port(proxy),
{
    lemma_before_first(proxy, '@');
    lemma_after_last(proxy, '@');
    let b = before_first(proxy, '@').len() as int;
    let a = proxy.len() - host_port(proxy).len();
    let rest = after_first(proxy, '@');
    if a - 1 > b {
        assert(rest[a - 1 - b - 1] == '@');
    }
    if a - 1 < b {
        assert(before_first(proxy, '@')[a - 1] == '@');
    }
    assert(proxy =~= before_first(proxy, '@') + seq!['@'] + host_port(proxy));
}

/// Law: the credentials are all that stands before the first `@`, the empty text included; an
/// address without an `@` has none, and is all host and port.
pub proof fn law_credentials_before_the_at(creds: Seq<char>, rest: Seq<char>, plain: Seq<char>)
    requires
        !creds.contains('@'),
        !plain.contains('@'),
    ensures
        credentials(creds + seq!['@'] + rest) == Some(creds),
        credentials(plain) is None,
        host_port(plain) == plain,
{
    let proxy = creds + seq!['@'] + rest;
    assert(proxy[creds.len() as int] == '@');
    law_first_mark_is(creds, '@', rest);
    law_last_mark(plain, '@');
}

/// Law: the host and port are all that stands behind the last `@`.
pub proof fn law_host_behind_the_at(head: Seq<char>, host: Seq<char>)
    requires
        !host.contains('@'),
    ensures
        host_port(head + seq!['@'] + host) == host,
{
    law_last_mark_is(head, '@', host);
}

/// Law: the header is the word `Basic`, a space, and the credentials in base64.
pub proof fn law_authorization_header(creds: Seq<char>)
    ensures
        basic_authorization(creds) == seq!['B', 'a', 's', 'i', 'c', ' '] + base64_text(
            encode_utf8(creds),
        ),
{
    reveal_strlit("Basic ");
    assert("Basic "@ =~= seq!['B', 'a', 's', 'i', 'c', ' ']);
}

} // verus!
