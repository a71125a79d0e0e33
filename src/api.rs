use vstd::prelude::*;

use crate::labels::{first_chars, short_id};
use crate::text::text_eq;

verus! {

/// The envelope every API answer comes in.
#[derive(Debug)]
pub struct CfResponse<T> {
    pub success: bool,
    pub result: Option<T>,
    pub errors: Vec<CfApiError>,
    pub result_info: Option<ResultInfo>,
}

/// One error the API reports.
#[derive(Debug)]
pub struct CfApiError {
    pub code: u32,
    pub message: String,
}

/// Paging information of a listing.
#[derive(Debug)]
pub struct ResultInfo {
    pub page: Option<u32>,
    pub per_page: Option<u32>,
    pub total_count: Option<u32>,
    pub total_pages: Option<u32>,
}

/// A tunnel of the account.
#[derive(Debug)]
pub struct Tunnel {
    pub id: String,
    pub name: String,
    pub created_at: Option<String>,
    pub status: Option<String>,
}

/// A DNS zone.
#[derive(Debug)]
pub struct Zone {
    pub id: String,
    pub name: String,
    pub status: Option<String>,
}

/// An account the token can reach.
#[derive(Debug)]
pub struct Account {
    pub id: String,
    pub name: String,
}

/// An access application.
#[derive(Debug)]
pub struct AccessApp {
    pub id: Option<String>,
    pub name: String,
    pub domain: String,
    pub app_type: Option<String>,
    pub session_duration: Option<String>,
}

/// An access application to create.
#[derive(Debug)]
pub struct CreateAccessApp {
    pub name: String,
    pub domain: String,
    pub app_type: String,
    pub session_duration: String,
}

/// An access-policy rule matching one e-mail address.
#[derive(Debug)]
pub struct PolicyEmail {
    pub email: String,
}

/// An access-policy rule matching an e-mail domain.
#[derive(Debug)]
pub struct PolicyEmailDomain {
    pub domain: String,
}

/// Why an API answer carries no result.
#[derive(Debug)]
pub enum ResponseError {
    /// The API refused, with its first reported error.
    Api { code: u32, message: String },
    /// The API refused without saying why; the HTTP status.
    Status { status: u16 },
    /// The API accepted but sent no result; the HTTP status.
    EmptyResult { status: u16 },
}

/// The result of an API answer received with HTTP `status`: a refusal
/// reports the first error the API gave (or the status when it gave none),
/// and an acceptance without a result is an error too.
pub fn response_result<T>(resp: CfResponse<T>, status: u16) -> (r: Result<T, ResponseError>)
    ensures
        resp.success && resp.result is Some ==> r == Ok::<T, ResponseError>(resp.result->0),
        resp.success && resp.result is None ==> (r matches Err(
            ResponseError::EmptyResult { status: s },
        ) && s == status),
        !resp.success && resp.errors.len() > 0 ==> (r matches Err(
            ResponseError::Api { code, message },
        ) && code == resp.errors[0].code && message@ == resp.errors[0].message@),
        !resp.success && resp.errors.len() == 0 ==> (r matches Err(
            ResponseError::Status { status: s },
        ) && s == status),
{
    let CfResponse { success, result, errors, result_info: _ } = resp;
    if !success {
        let mut errors = errors;
        if errors.len() > 0 {
            let first = errors.remove(0);
            return Err(ResponseError::Api { code: first.code, message: first.message });
        }
        return Err(ResponseError::Status { status });
    }
    match result {
        Some(v) => Ok(v),
        None => Err(ResponseError::EmptyResult { status }),
    }
}

/// How a tunnel is offered in a pick list: `name (short id) [status]`, with
/// `-` for an unknown status.
pub open spec fn tunnel_choice(t: Tunnel) -> Seq<char> {
    t.name@ + " ("@ + first_chars(t.id@, 8) + ") ["@ + (match t.status {
        Some(s) => s@,
        None => "-"@,
    }) + "]"@
}

/// The pick-list line of a tunnel.
pub fn tunnel_label(t: &Tunnel) -> (r: String)
    ensures
        r@ == tunnel_choice(*t),
{
    let mut r = t.name.clone();
    r.append(" (");
    let id = short_id(t.id.as_str());
    r.append(id.as_str());
    r.append(") [");
    match &t.status {
        Some(s) => r.append(s.as_str()),
        None => r.append("-"),
    }
    r.append("]");
    r
}

/// The position of the first account with identifier `id`.
pub fn find_account(accounts: &Vec<Account>, id: &str) -> (r: Option<usize>)
    ensures
        r matches Some(i) ==> i < accounts.len() && accounts@[i as int].id@ == id@ && forall|
            k: int,
        | 0 <= k < i ==> accounts@[k].id@ != id@,
        r is None ==> forall|k: int| 0 <= k < accounts.len() ==> accounts@[k].id@ != id@,
{
    let mut i: usize = 0;
    while i < accounts.len()
        invariant
            i <= accounts.len(),
            forall|k: int| 0 <= k < i ==> accounts@[k].id@ != id@,
        decreases accounts.len() - i,
    {
        if text_eq(accounts[i].id.as_str(), id) {
            return Some(i);
        }
        i = i + 1;
    }
    None
}

/// The first position of `c` in `s`, or -1.
pub open spec fn first_index_of(s: Seq<char>, c: char) -> int {
    if exists|i: int| 0 <= i < s.len() && s[i] == c {
        choose|i: int| 0 <= i < s.len() && s[i] == c && forall|k: int| 0 <= k < i ==> s[k] != c
    } else {
        -1
    }
}

/// The e-mail domain a user typed: whatever follows the first `@`, or the
/// whole text when it has none.
pub open spec fn email_domain_of(input: Seq<char>) -> Seq<char> {
    let at = first_index_of(input, '@');
    if at < 0 {
        input
    } else {
        input.skip(at + 1)
    }
}

/// Read an e-mail domain from a domain, an `@domain` or a full address.
pub fn email_domain(input: &str) -> (r: String)
    ensures
        r@ == email_domain_of(input@),
{
    let n = input.unicode_len();
    let mut i: usize = 0;
    while i < n
        invariant
            n == input@.len(),
            i <= n,
            forall|k: int| 0 <= k < i ==> input@[k] != '@',
        decreases n - i,
    {
        if input.get_char(i) == '@' {
            let ghost s = input@;
            assert(exists|j: int| 0 <= j < s.len() && s[j] == '@');
            let ghost j = choose|j: int|
                0 <= j < s.len() && s[j] == '@' && forall|k: int| 0 <= k < j ==> s[k] != '@';
            assert(j == i) by {
                if j < i {
                    assert(s[j] != '@');
                } else if j > i {
                    assert(s[i as int] == '@');
                }
            }
            return String::from_str(input.substring_char(i + 1, n));
        }
        i = i + 1;
    }
    String::from_str(input)
}

/// A self-hosted access application to create.
pub fn new_access_app(name: &str, domain: &str, session_duration: &str) -> (r: CreateAccessApp)
    ensures
        r.name@ == name@,
        r.domain@ == domain@,
        r.app_type@ == "self_hosted"@,
        r.session_duration@ == session_duration@,
{
    CreateAccessApp {
        name: String::from_str(name),
        domain: String::from_str(domain),
        app_type: String::from_str("self_hosted"),
        session_duration: String::from_str(session_duration),
    }
}

} // verus!
