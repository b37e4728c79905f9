//! Client authentication from X.509 certificates and service authorization.
//!
//! SAN convention:
//!   DNS:agent.<service>.ztna      authorizes an Agent for <service>
//!   DNS:connector.<service>.ztna  authorizes a Connector for <service>
//!   DNS:agent.*.ztna              wildcard Agent (all services)
//!   DNS:connector.*.ztna          wildcard Connector (all services)
//!   no ZTNA SAN entry             allow all
use vstd::prelude::*;
use x509_parser::prelude::FromDer;
use crate::server::registry::{ClientType, contains_str, strings_view};
use crate::text::{ascii_lower, lowercase, push_char, push_str, to_lowercase};

verus! {

/// Identity extracted from a client certificate.
#[derive(Debug, Clone)]
pub struct ClientIdentity {
    /// Common Name from the certificate subject
    pub common_name: String,
    /// Authorization entries ("<role>:<service>") from SAN DNS names, each
    /// once; `None` when there is none, which allows all services
    pub authorized_services: Option<Vec<String>>,
}

/// Errors of identity extraction.
#[derive(Debug)]
pub enum AuthError {
    /// The DER certificate did not parse
    ParseError(String),
    /// The certificate subject has no Common Name
    MissingCommonName,
}

impl AuthError {
    /// Human-readable description.
    pub fn to_string(&self) -> (s: String)
        ensures
            s@ == match self {
                AuthError::ParseError(m) => "certificate parse error: "@ + m@,
                AuthError::MissingCommonName => "certificate has no Common Name"@,
            },
    {
        match self {
            AuthError::ParseError(m) => {
                let mut s = String::from_str("certificate parse error: ");
                push_str(&mut s, m.as_str());
                s
            },
            AuthError::MissingCommonName => String::from_str("certificate has no Common Name"),
        }
    }
}

/// Whether a DER buffer parses as an X.509 certificate.
pub uninterp spec fn x509_parses(der: Seq<u8>) -> bool;

/// The first Common Name of the subject of the certificate in `der`, when it
/// is a string.
pub uninterp spec fn x509_common_name(der: Seq<u8>) -> Option<Seq<char>>;

/// The general names of the first subject alternative name extension of
/// the certificate in `der`, if it has one: each DNS name as its text, each
/// name of another kind as `None`.
pub uninterp spec fn x509_san_general_names(der: Seq<u8>) -> Option<Seq<Option<Seq<char>>>>;

/// The DNS names among general names, in order.
pub open spec fn dns_only(names: Seq<Option<Seq<char>>>) -> Seq<Seq<char>>
    decreases names.len(),
{
    if names.len() == 0 {
        Seq::empty()
    } else {
        let rest = dns_only(names.drop_last());
        match names.last() {
            Some(d) => rest.push(d),
            None => rest,
        }
    }
}

/// The DNS names of the first subject alternative name extension of the
/// certificate in `der`, if it has one.
pub open spec fn x509_san_dns_names(der: Seq<u8>) -> Option<Seq<Seq<char>>> {
    match x509_san_general_names(der) {
        Some(n) => Some(dns_only(n)),
        None => None,
    }
}

/// View of an optional string.
pub open spec fn opt_str(s: Option<String>) -> Option<Seq<char>> {
    match s {
        Some(x) => Some(x@),
        None => None,
    }
}

/// View of an optional list of optional strings.
pub open spec fn opt_names(s: Option<Vec<Option<String>>>) -> Option<Seq<Option<Seq<char>>>> {
    match s {
        Some(v) => Some(v@.map_values(|x: Option<String>| opt_str(x))),
        None => None,
    }
}

/// View of an optional list of strings.
pub open spec fn opt_strings(s: Option<Vec<String>>) -> Option<Seq<Seq<char>>> {
    match s {
        Some(v) => Some(strings_view(v@)),
        None => None,
    }
}

/// `X509Certificate::from_der` on `der`, then the subject's first Common
/// Name as a string (`X509Name::iter_common_name`, `as_str`). Ok exactly when
/// the certificate parses; the error text (the parser's message) is not
/// stated.
#[verifier::external_body]
fn certificate_common_name(der: &[u8]) -> (r: Result<Option<String>, String>)
    ensures
        r is Ok <==> x509_parses(der@),
        r matches Ok(cn) ==> opt_str(cn) == x509_common_name(der@),
{
    match x509_parser::certificate::X509Certificate::from_der(der) {
        Ok((_, cert)) => Ok(cert.subject().iter_common_name().next().and_then(|cn| cn.as_str().ok()).map(
            |s| s.to_string(),
        )),
        Err(e) => Err(format!("{}", e)),
    }
}

/// `X509Certificate::from_der` on `der`, then the general names of its
/// first subject alternative name extension (`find_extension` with
/// `oid_registry::OID_X509_EXT_SUBJECT_ALT_NAME`, `parsed_extension`), each
/// DNS name as its text and any other name as `None`; `None` when the bytes
/// do not parse.
#[verifier::external_body]
#[allow(deprecated)]
fn certificate_san_names(der: &[u8]) -> (r: Option<Vec<Option<String>>>)
    ensures
        x509_parses(der@) ==> opt_names(r) == x509_san_general_names(der@),
        !x509_parses(der@) ==> r is None,
{
    let (_, cert) = x509_parser::certificate::X509Certificate::from_der(der).ok()?;
    let ext = cert.find_extension(&oid_registry::OID_X509_EXT_SUBJECT_ALT_NAME)?;
    match ext.parsed_extension() {
        x509_parser::extensions::ParsedExtension::SubjectAlternativeName(san) => Some(
            san.general_names.iter().map(|n| match n {
                x509_parser::extensions::GeneralName::DNSName(d) => Some(d.to_string()),
                _ => None,
            }).collect(),
        ),
        _ => None,
    }
}

/// The DNS names among the general names of a certificate, in order.
fn san_dns_names(names: Option<Vec<Option<String>>>) -> (r: Option<Vec<String>>)
    ensures
        opt_strings(r) == match opt_names(names) {
            Some(n) => Some(dns_only(n)),
            None => None,
        },
{
    let names = match names {
        Some(n) => n,
        None => {
            return None;
        },
    };
    let ghost nv = names@.map_values(|x: Option<String>| opt_str(x));
    let mut out: Vec<String> = Vec::new();
    let mut i: usize = 0;
    while i < names.len()
        invariant
            i <= names@.len(),
            nv == names@.map_values(|x: Option<String>| opt_str(x)),
            strings_view(out@) == dns_only(nv.subrange(0, i as int)),
        decreases names@.len() - i,
    {
        proof {
            assert(nv.subrange(0, i + 1).drop_last() =~= nv.subrange(0, i as int));
            assert(nv.subrange(0, i + 1).last() == opt_str(names@[i as int]));
        }
        match &names[i] {
            Some(d) => {
                out.push(d.clone());
                assert(strings_view(out@) =~= dns_only(nv.subrange(0, i + 1)));
            },
            None => {},
        }
        i = i + 1;
    }
    assert(nv.subrange(0, i as int) =~= nv);
    Some(out)
}

/// Index of the first `c` in `s`, if any.
pub open spec fn first_index(s: Seq<char>, c: char) -> Option<int> {
    if exists|d: int| 0 <= d < s.len() && s[d] == c && forall|j: int| 0 <= j < d ==> #[trigger] s[j] != c {
        Some(choose|d: int| 0 <= d < s.len() && s[d] == c && forall|j: int| 0 <= j < d ==> #[trigger] s[j] != c)
    } else {
        None
    }
}

/// The authorization entry of a lower-case SAN DNS name: for
/// "<role>.<service>.ztna" with role "agent" or "connector" and a non-empty
/// service (split at the first dot), "<role>:<service>".
pub open spec fn ztna_entry(lower: Seq<char>) -> Option<Seq<char>> {
    let n = lower.len() as int;
    if n < 5 || lower.subrange(n - 5, n) != ".ztna"@ {
        None
    } else {
        let prefix = lower.subrange(0, n - 5);
        match first_index(prefix, '.') {
            None => None,
            Some(d) => {
                let role = prefix.subrange(0, d);
                let service = prefix.subrange(d + 1, prefix.len() as int);
                if service.len() == 0 {
                    None
                } else if role == "agent"@ || role == "connector"@ {
                    Some(role + ":"@ + service)
                } else {
                    None
                }
            },
        }
    }
}

/// Whether `s` ends with `suffix`.
fn ends_with(s: &str, suffix: &str) -> (r: bool)
    ensures
        r == (s@.len() >= suffix@.len() && s@.subrange(s@.len() - suffix@.len(), s@.len() as int) == suffix@),
{
    let n = s.unicode_len();
    let m = suffix.unicode_len();
    if n < m {
        return false;
    }
    let mut i: usize = 0;
    while i < m
        invariant
            n == s@.len(),
            m == suffix@.len(),
            m <= n,
            i <= m,
            forall|k: int| 0 <= k < i ==> s@[n - m + k] == suffix@[k],
        decreases m - i,
    {
        if s.get_char(n - m + i) != suffix.get_char(i) {
            assert(s@.subrange(n - m, n as int)[i as int] != suffix@[i as int]);
            return false;
        }
        i = i + 1;
    }
    assert(s@.subrange(n - m, n as int) =~= suffix@);
    true
}

/// The characters `s[from..to]` as a string.
fn substring(s: &str, from: usize, to: usize) -> (r: String)
    requires
        from <= to <= s@.len(),
    ensures
        r@ == s@.subrange(from as int, to as int),
{
    let mut r = String::new();
    let mut i = from;
    while i < to
        invariant
            from <= i <= to <= s@.len(),
            r@ == s@.subrange(from as int, i as int),
        decreases to - i,
    {
        push_char(&mut r, s.get_char(i));
        assert(r@ =~= s@.subrange(from as int, i + 1));
        i = i + 1;
    }
    r
}

/// Parses a SAN DNS name for ZTNA authorization: "<role>.<service>.ztna"
/// (any case) gives "<role>:<service>" in lower case, for the roles agent
/// and connector; anything else gives nothing. ASCII names are lowered
/// letter by letter.
pub fn parse_ztna_san(dns: &str) -> (r: Option<String>)
    ensures
        opt_str(r) == ztna_entry(lowercase(dns@)),
        vstd::string::is_ascii(dns) ==> opt_str(r) == ztna_entry(dns@.map_values(|c: char| ascii_lower(c))),
{
    let lower = to_lowercase(dns);
    let l = lower.as_str();
    if !ends_with(l, ".ztna") {
        proof {
            reveal_strlit(".ztna");
        }
        return None;
    }
    proof {
        reveal_strlit(".ztna");
    }
    let n = l.unicode_len() - 5;
    let ghost prefix = l@.subrange(0, n as int);
    let mut d: usize = 0;
    let mut found = false;
    while d < n && !found
        invariant
            n == l@.len() - 5,
            prefix == l@.subrange(0, n as int),
            d <= n,
            found ==> d < n && prefix[d as int] == '.',
            forall|j: int| 0 <= j < d ==> #[trigger] prefix[j] != '.',
        decreases n - d, if found { 0int } else { 1int },
    {
        if l.get_char(d) == '.' {
            found = true;
        } else {
            d = d + 1;
        }
    }
    if !found {
        assert(first_index(prefix, '.') is None) by {
            if exists|e: int| 0 <= e < prefix.len() && prefix[e] == '.' && forall|j: int| 0 <= j < e ==> #[trigger] prefix[j] != '.' {
                let e = choose|e: int| 0 <= e < prefix.len() && prefix[e] == '.' && forall|j: int| 0 <= j < e ==> #[trigger] prefix[j] != '.';
                assert(prefix[e] != '.');
            }
        }
        return None;
    }
    assert(prefix[d as int] == '.');
    assert(first_index(prefix, '.') == Some(d as int)) by {
        let e = choose|e: int| 0 <= e < prefix.len() && prefix[e] == '.' && forall|j: int| 0 <= j < e ==> #[trigger] prefix[j] != '.';
        if e < d {
            assert(prefix[e] != '.');
        }
        if e > d {
            assert(prefix[d as int] != '.');
        }
    }
    let role = substring(l, 0, d);
    let service = substring(l, d + 1, n);
    assert(role@ =~= prefix.subrange(0, d as int));
    assert(service@ =~= prefix.subrange(d + 1, prefix.len() as int));
    if service.unicode_len() == 0 {
        return None;
    }
    proof {
        reveal_strlit("agent");
        reveal_strlit("connector");
    }
    let is_agent = role == String::from_str("agent");
    let is_connector = role == String::from_str("connector");
    if is_agent || is_connector {
        let mut entry = role;
        push_char(&mut entry, ':');
        push_str(&mut entry, service.as_str());
        proof {
            reveal_strlit(":");
        }
        assert(entry@ =~= prefix.subrange(0, d as int) + ":"@ + prefix.subrange(d + 1, prefix.len() as int));
        Some(entry)
    } else {
        None
    }
}

/// The authorization entries of a list of SAN DNS names, in order, each once.
pub open spec fn collect_entries(names: Seq<Seq<char>>) -> Seq<Seq<char>>
    decreases names.len(),
{
    if names.len() == 0 {
        Seq::empty()
    } else {
        let rest = collect_entries(names.drop_last());
        match ztna_entry(lowercase(names.last())) {
            Some(e) => if rest.contains(e) {
                rest
            } else {
                rest.push(e)
            },
            None => rest,
        }
    }
}

/// The services a certificate authorizes, from its SAN DNS names: none
/// without a SAN extension or without any ZTNA entry.
pub open spec fn spec_authorized(names: Option<Seq<Seq<char>>>) -> Option<Seq<Seq<char>>> {
    match names {
        None => None,
        Some(n) => if collect_entries(n).len() == 0 {
            None
        } else {
            Some(collect_entries(n))
        },
    }
}

/// The authorization entries of SAN DNS names (see `spec_authorized`).
pub fn extract_authorized_services(dns_names: Option<Vec<String>>) -> (r: Option<Vec<String>>)
    ensures
        opt_strings(r) == spec_authorized(opt_strings(dns_names)),
{
    let names = match dns_names {
        Some(n) => n,
        None => {
            return None;
        },
    };
    let ghost nv = strings_view(names@);
    let mut entries: Vec<String> = Vec::new();
    let mut i: usize = 0;
    while i < names.len()
        invariant
            i <= names@.len(),
            nv == strings_view(names@),
            strings_view(entries@) == collect_entries(nv.subrange(0, i as int)),
        decreases names@.len() - i,
    {
        proof {
            assert(nv.subrange(0, i + 1).drop_last() =~= nv.subrange(0, i as int));
            assert(nv.subrange(0, i + 1).last() == names@[i as int]@);
        }
        match parse_ztna_san(names[i].as_str()) {
            Some(e) => {
                if !contains_str(&entries, e.as_str()) {
                    entries.push(e);
                    assert(strings_view(entries@) =~= collect_entries(nv.subrange(0, i + 1)));
                }
            },
            None => {},
        }
        i = i + 1;
    }
    assert(nv.subrange(0, i as int) =~= nv);
    if entries.len() == 0 {
        None
    } else {
        Some(entries)
    }
}

/// Extracts the client identity from a DER certificate: its Common Name and
/// the services its SAN DNS names authorize.
pub fn extract_identity(der_cert: &[u8]) -> (r: Result<ClientIdentity, AuthError>)
    ensures
        !x509_parses(der_cert@) ==> r matches Err(AuthError::ParseError(_)),
        x509_parses(der_cert@) && x509_common_name(der_cert@) is None ==> r matches Err(AuthError::MissingCommonName),
        x509_parses(der_cert@) && x509_common_name(der_cert@) is Some ==> (r matches Ok(id) && id.common_name@
            == x509_common_name(der_cert@)->0 && opt_strings(id.authorized_services) == spec_authorized(
            x509_san_dns_names(der_cert@),
        )),
{
    let common_name = match certificate_common_name(der_cert) {
        Err(e) => {
            return Err(AuthError::ParseError(e));
        },
        Ok(None) => {
            return Err(AuthError::MissingCommonName);
        },
        Ok(Some(cn)) => cn,
    };
    let authorized_services = extract_authorized_services(san_dns_names(certificate_san_names(der_cert)));
    Ok(ClientIdentity { common_name, authorized_services })
}

/// The role name of a client type.
pub open spec fn role_name(t: ClientType) -> Seq<char> {
    match t {
        ClientType::Agent => "agent"@,
        ClientType::Connector => "connector"@,
    }
}

/// Whether an identity may register for a service in a role: always without
/// ZTNA entries; otherwise with "<role>:<service>" or "<role>:*".
pub open spec fn spec_authorized_for(services: Option<Seq<Seq<char>>>, service_id: Seq<char>, t: ClientType) -> bool {
    match services {
        None => true,
        Some(s) => s.contains(role_name(t) + ":"@ + service_id) || s.contains(role_name(t) + ":*"@),
    }
}

/// Checks whether an identity is authorized for a service in a role.
pub fn is_authorized_for_service(identity: &ClientIdentity, service_id: &str, client_type: &ClientType) -> (r: bool)
    ensures
        r == spec_authorized_for(opt_strings(identity.authorized_services), service_id@, *client_type),
{
    let services = match &identity.authorized_services {
        None => {
            return true;
        },
        Some(s) => s,
    };
    let role = match client_type {
        ClientType::Agent => "agent",
        ClientType::Connector => "connector",
    };
    let mut exact = String::from_str(role);
    push_char(&mut exact, ':');
    push_str(&mut exact, service_id);
    let mut wildcard = String::from_str(role);
    push_str(&mut wildcard, ":*");
    proof {
        reveal_strlit("agent");
        reveal_strlit("connector");
        reveal_strlit(":*");
        reveal_strlit(":");
        assert(exact@ =~= role_name(*client_type) + ":"@ + service_id@);
        assert(wildcard@ =~= role_name(*client_type) + ":*"@);
    }
    contains_str(services, exact.as_str()) || contains_str(services, wildcard.as_str())
}

} // verus!
