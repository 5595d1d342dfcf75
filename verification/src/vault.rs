//! The secret-store client: authenticated read and list access to a
//! vault-style HTTP key-value service, with a mocked mode that returns a
//! fixed deterministic value and never touches the network.
use vstd::prelude::*;

use crate::config::VaultConfig;
use crate::ext::{
    http_get, json_secret_keys, json_secret_value, secret_keys_of, secret_value_of,
};
use crate::strutil::strs_view;

verus! {

/// Vault usage mode.
#[derive(Clone, Copy, Debug, PartialEq, Eq, Structural)]
pub enum Mode {
    /// Normal HTTP calls to the store returning actual secrets.
    Standard,
    /// No HTTP calls; every read returns the same dummy value.
    Mocked,
}

/// The errors a secret-store interaction can end in.
#[derive(Clone, Debug)]
pub enum VaultError {
    /// The read response has no `value` entry under `data`; holds the path.
    InvalidSecretForm(String),
    /// No store address was configured.
    MissingAddr,
    /// No store token was configured.
    MissingToken,
    /// A response outside the 2xx range; holds the status and the URL.
    UnexpectedHttpStatus(u16, String),
    /// The URL could not be reached; holds the URL.
    Url(String),
    /// The list response carries no key list; holds the URL.
    ListMissingKeys(String),
}

impl VaultError {
    /// The reason text of this error.
    pub open spec fn reason_view(self) -> Seq<char> {
        match self {
            VaultError::InvalidSecretForm(p) => "secret '"@ + p@
                + "' does not have the 'value' key"@,
            VaultError::MissingAddr => "VAULT_ADDR not specified"@,
            VaultError::MissingToken => "VAULT_TOKEN not specified"@,
            VaultError::UnexpectedHttpStatus(s, u) => "unexpected HTTP status "@
                + crate::strutil::dec_view(s as int) + " from "@ + u@,
            VaultError::Url(u) => "could not access URL '"@ + u@ + "'"@,
            VaultError::ListMissingKeys(u) => "secret list "@ + u@
                + " does not contain a keys list"@,
        }
    }

    /// The message of this error.
    pub fn describe(&self) -> (r: String)
        ensures
            r@ == self.reason_view(),
    {
        match self {
            VaultError::InvalidSecretForm(p) => String::from_str("secret '").concat(
                p.as_str(),
            ).concat("' does not have the 'value' key"),
            VaultError::MissingAddr => "VAULT_ADDR not specified".to_owned(),
            VaultError::MissingToken => "VAULT_TOKEN not specified".to_owned(),
            VaultError::UnexpectedHttpStatus(s, u) => String::from_str(
                "unexpected HTTP status ",
            ).concat(crate::strutil::u32_string(*s as u32).as_str()).concat(" from ").concat(
                u.as_str(),
            ),
            VaultError::Url(u) => String::from_str("could not access URL '").concat(
                u.as_str(),
            ).concat("'"),
            VaultError::ListMissingKeys(u) => String::from_str("secret list ").concat(
                u.as_str(),
            ).concat(" does not contain a keys list"),
        }
    }
}

/// The fixed value every mocked-mode read returns: an arbitrary base64
/// string, so it is compatible with secret files too.
pub open spec fn mocked_secret_view() -> Seq<char> {
    "aGVsbG8gd29ybGQ="@
}

/// A key list with the sub-folder entries (those ending in `/`) removed,
/// order kept.
pub open spec fn filter_folders(keys: Seq<Seq<char>>) -> Seq<Seq<char>>
    decreases keys.len(),
{
    if keys.len() == 0 {
        Seq::empty()
    } else {
        let rest = filter_folders(keys.drop_last());
        let k = keys.last();
        if k.len() >= 1 && k[k.len() - 1] == '/' {
            rest
        } else {
            rest.push(k)
        }
    }
}

/// The URL of one authenticated request: the store address, the API
/// prefix, the path.
pub open spec fn request_url_view(addr: Seq<char>, pth: Seq<char>) -> Seq<char> {
    addr + "/v1/"@ + pth
}

/// The request path of a read: `secret/` plus the key.
pub open spec fn read_path_view(key: Seq<char>) -> Seq<char> {
    "secret/"@ + key
}

/// The request path of a listing: `secret/` plus the folder, with the
/// list query.
pub open spec fn list_path_view(path: Seq<char>) -> Seq<char> {
    "secret/"@ + path + "?list=true"@
}

/// Splits a reply by status: a 2xx response hands its body out, anything
/// else is the status error carrying the status and the URL it came
/// from.
pub fn classify_reply(url: &String, reply: crate::ext::HttpReply) -> (r: Result<
    String,
    VaultError,
>)
    ensures
        (200 <= reply.status < 300) <==> r is Ok,
        r matches Ok(b) ==> b@ == reply.body@,
        r matches Err(e) ==> (e matches VaultError::UnexpectedHttpStatus(s, u) && s
            == reply.status && u@ == url@),
{
    if reply.status < 200 || reply.status >= 300 {
        Err(VaultError::UnexpectedHttpStatus(reply.status, url.clone()))
    } else {
        Ok(reply.body)
    }
}

/// A secret-store handle: address, token and mode. Shared read-only by
/// all reconciliation calls; it holds no connection state of its own.
#[derive(Clone, Debug)]
pub struct Vault {
    /// Address of the store, scheme included, without a trailing slash.
    pub addr: String,
    /// The token sent with every request.
    pub token: String,
    /// Operation mode.
    pub mode: Mode,
}

/// Reads the secret value out of a read-response body: the `value` entry
/// of its `data` map, integers coerced to decimal strings; a body without
/// one is a malformed secret at the given path.
pub fn parse_secret_body(pth: &String, body: &String) -> (r: Result<String, VaultError>)
    ensures
        match secret_value_of(body@) {
            Some(v) => r matches Ok(s) && s@ == v,
            None => r matches Err(VaultError::InvalidSecretForm(p)) && p@ == pth@,
        },
{
    match json_secret_value(body) {
        Some(s) => Ok(s),
        None => Err(VaultError::InvalidSecretForm(pth.clone())),
    }
}

/// Reads the key list out of a list-response body and drops the
/// sub-folder entries; a body without a key list is an error naming the
/// URL it came from.
pub fn parse_list_body(url: &String, body: &String) -> (r: Result<Vec<String>, VaultError>)
    ensures
        match secret_keys_of(body@) {
            Some(keys) => r matches Ok(v) && strs_view(v@) == filter_folders(keys),
            None => r matches Err(VaultError::ListMissingKeys(u)) && u@ == url@,
        },
{
    let keys = match json_secret_keys(body) {
        Some(keys) => keys,
        None => {
            return Err(VaultError::ListMissingKeys(url.clone()));
        },
    };
    let ghost all = strs_view(keys@);
    let mut out: Vec<String> = Vec::new();
    let mut i: usize = 0;
    while i < keys.len()
        invariant
            i <= keys.len(),
            all == strs_view(keys@),
            strs_view(out@) =~= filter_folders(all.take(i as int)),
        decreases keys.len() - i,
    {
        proof {
            crate::strutil::lemma_take_one_more(all, i as int);
            assert(all[i as int] == keys@[i as int]@);
        }
        let n = keys[i].as_str().unicode_len();
        let is_folder = n >= 1 && keys[i].as_str().get_char(n - 1) == '/';
        if !is_folder {
            let ghost prev = out@;
            out.push(keys[i].clone());
            proof {
                crate::strutil::lemma_strs_view_push(prev, keys@[i as int]);
            }
        }
        proof {
            assert(all.take(i + 1).drop_last() =~= all.take(i as int));
            assert(all.take(i + 1).last() == all[i as int]);
        }
        i += 1;
    }
    assert(all.take(keys.len() as int) =~= all);
    Ok(out)
}

impl Vault {
    /// A handle from explicit parts.
    pub fn new(addr: String, token: String, mode: Mode) -> (v: Vault)
        ensures
            v.addr@ == addr@,
            v.token@ == token@,
            v.mode == mode,
    {
        Vault { addr, token, mode }
    }

    /// A standard handle against a region's store, with the caller's
    /// token.
    pub fn regional(vc: &VaultConfig, token: String) -> (v: Vault)
        ensures
            v.addr@ == vc.url@,
            v.token@ == token@,
            v.mode == Mode::Standard,
    {
        Vault { addr: vc.url.clone(), token, mode: Mode::Standard }
    }

    /// A mocked handle against a region's store: dummy token, no HTTP.
    pub fn mocked(vc: &VaultConfig) -> (v: Vault)
        ensures
            v.addr@ == vc.url@,
            v.mode == Mode::Mocked,
    {
        Vault { addr: vc.url.clone(), token: "INVALID_TOKEN".to_owned(), mode: Mode::Mocked }
    }

    /// The operation mode of this handle.
    pub fn mode(&self) -> (m: Mode)
        ensures
            m == self.mode,
    {
        self.mode
    }

    /// One authenticated GET against the store, at `/v1/` plus the given
    /// path. Whether it succeeds depends on the network; but every error
    /// is either a transport error or a non-2xx status error, and both
    /// carry the URL that was asked.
    fn get_raw(&self, pth: &String) -> (r: Result<String, VaultError>)
        ensures
            r matches Err(e) ==> match e {
                VaultError::Url(u) => u@ == request_url_view(self.addr@, pth@),
                VaultError::UnexpectedHttpStatus(s, u) => !(200 <= s < 300) && u@
                    == request_url_view(self.addr@, pth@),
                _ => false,
            },
    {
        let url = self.addr.clone().concat("/v1/").concat(pth.as_str());
        match http_get(&url, &self.token) {
            Err(_) => Err(VaultError::Url(url)),
            Ok(reply) => classify_reply(&url, reply),
        }
    }

    /// Read one secret. In mocked mode this is the fixed value, whatever
    /// the key. In standard mode it is the `value` entry of whatever the
    /// store returned for `secret/<key>` — no more can be promised of a
    /// network read's value — and every error names its cause: a 2xx body
    /// without a `value` entry is the malformed-secret error carrying the
    /// path, a non-2xx reply is the status error carrying the status and
    /// URL, and a transport failure carries the URL.
    pub fn read(&self, key: &String) -> (r: Result<String, VaultError>)
        ensures
            self.mode == Mode::Mocked ==> (r matches Ok(s) && s@ == mocked_secret_view()),
            self.mode == Mode::Standard ==> (r matches Ok(s) ==> exists|body: Seq<char>|
                secret_value_of(body) == Some(s@)),
            r matches Err(e) ==> match e {
                VaultError::InvalidSecretForm(p) => p@ == read_path_view(key@),
                VaultError::Url(u) => u@ == request_url_view(self.addr@, read_path_view(key@)),
                VaultError::UnexpectedHttpStatus(s, u) => !(200 <= s < 300) && u@
                    == request_url_view(self.addr@, read_path_view(key@)),
                _ => false,
            },
    {
        if self.mode == Mode::Mocked {
            return Ok("aGVsbG8gd29ybGQ=".to_owned());
        }
        let pth = String::from_str("secret/").concat(key.as_str());
        let body = match self.get_raw(&pth) {
            Ok(b) => b,
            Err(e) => {
                return Err(e);
            },
        };
        match parse_secret_body(&pth, &body) {
            Ok(s) => {
                proof {
                    assert(secret_value_of(body@) == Some(s@));
                }
                Ok(s)
            },
            Err(e) => Err(e),
        }
    }

    /// List the keys under a folder, sub-folders dropped. Always an HTTP
    /// call, mocked mode included — so mocked listings carry no
    /// consistency promise at all, unlike mocked reads. The result is
    /// whatever key list the store returned; every error names its
    /// cause, the keyless-body and status errors carrying the URL.
    pub fn list(&self, path: &String) -> (r: Result<Vec<String>, VaultError>)
        ensures
            r matches Ok(v) ==> exists|body: Seq<char>|
                ((#[trigger] secret_keys_of(body)) matches Some(keys) && strs_view(v@)
                    == filter_folders(keys)),
            r matches Err(e) ==> match e {
                VaultError::ListMissingKeys(u) => u@ == request_url_view(
                    self.addr@,
                    list_path_view(path@),
                ),
                VaultError::Url(u) => u@ == request_url_view(self.addr@, list_path_view(path@)),
                VaultError::UnexpectedHttpStatus(s, u) => !(200 <= s < 300) && u@
                    == request_url_view(self.addr@, list_path_view(path@)),
                _ => false,
            },
    {
        let pth = String::from_str("secret/").concat(path.as_str()).concat("?list=true");
        let url = self.addr.clone().concat("/v1/").concat(pth.as_str());
        let body = match self.get_raw(&pth) {
            Ok(b) => b,
            Err(e) => {
                return Err(e);
            },
        };
        match parse_list_body(&url, &body) {
            Ok(v) => {
                proof {
                    assert(secret_keys_of(body@) matches Some(keys) && strs_view(v@)
                        == filter_folders(keys));
                }
                Ok(v)
            },
            Err(e) => Err(e),
        }
    }
}

} // verus!
