//! The configuration of one secret to read, and the two halves of reading it:
//! the request that is to be sent, and what the reply to it means.

use crate::address::{
    UrlParts, is_file_head, is_plain_char, parsed_parts, plain_segments, plain_url, read_url,
    read_url_outcome,
};
use crate::error::VaultError;
use crate::response::{agrees, read_response, response_outcome};
use crate::secret::Secret;
use crate::segments::{
    join_with_slash, lemma_join_of_split, lemma_split_keeps_kind, split_on_slash, split_segments,
};
use crate::version::{api_path_text, lemma_api_path_segments, KvVersion};
use vstd::prelude::*;
use vstd::string::*;

verus! {

/// Where a secret lies and how it is asked for: the server's address, the
/// token that is sent along, the mount of the key-value engine, the path of
/// the secret inside the mount, and the engine's generation.
#[derive(Debug, Clone)]
pub struct VaultSource {
    vault_addr: String,
    vault_token: String,
    vault_mount: String,
    vault_path: String,
    kv_version: KvVersion,
}

/// The mathematical value of a `VaultSource`.
pub struct VaultSourceView {
    pub address: Seq<char>,
    pub token: Seq<char>,
    pub mount: Seq<char>,
    pub path: Seq<char>,
    pub kv_version: KvVersion,
}

impl View for VaultSource {
    type V = VaultSourceView;

    closed spec fn view(&self) -> VaultSourceView {
        VaultSourceView {
            address: self.vault_addr@,
            token: self.vault_token@,
            mount: self.vault_mount@,
            path: self.vault_path@,
            kv_version: self.kv_version,
        }
    }
}

/// Every character of `text` is plain or a slash.
pub open spec fn plain_or_slash(text: Seq<char>) -> bool {
    forall|k: int| 0 <= k < text.len() ==> is_plain_char(#[trigger] text[k]) || text[k] == '/'
}

/// `text` ends with `suffix`.
pub open spec fn ends_with(text: Seq<char>, suffix: Seq<char>) -> bool {
    text.len() >= suffix.len() && text.subrange(text.len() - suffix.len(), text.len() as int)
        == suffix
}

/// The name of the header that carries the token.
pub open spec fn token_header_name() -> Seq<char> {
    "X-Vault-Token"@
}

/// One HTTP GET: the URL to read and the single header to send with it.
/// There is no body.
#[derive(Debug, Clone, PartialEq, Eq)]
pub struct ReadRequest {
    pub url: String,
    pub header_name: String,
    pub header_value: String,
}

/// What came of sending a request.
#[derive(Debug, Clone, PartialEq, Eq)]
pub enum Reply {
    /// The request failed below HTTP: no answer was received.
    Unreachable,
    /// The server answered.
    Answer { status: u16, body: Vec<u8> },
}

impl VaultSourceView {
    /// The segments that are appended to the address: those of the API path.
    pub open spec fn api_segments(self) -> Seq<Seq<char>> {
        split_on_slash(api_path_text(self.kv_version, self.mount, self.path))
    }

    /// What building the read URL gives.
    pub open spec fn url_outcome(self) -> Option<Result<Seq<char>, VaultError>> {
        read_url_outcome(self.address, self.api_segments())
    }

    /// The API path of the secret.
    pub open spec fn api_path(self) -> Seq<char> {
        api_path_text(self.kv_version, self.mount, self.path)
    }

    /// Mount and path are written in plain characters and slashes, and the
    /// address parses to a URL whose scheme is not `file`. The API path then
    /// stands in the URL as it is written.
    pub open spec fn is_plain(self) -> bool {
        &&& plain_or_slash(self.mount)
        &&& plain_or_slash(self.path)
        &&& parsed_parts(self.address) matches Some(base)
        &&& !is_file_head(base.head)
    }

    /// What a reply means.
    pub open spec fn reply_outcome(self, reply: Reply) -> Result<
        Map<Seq<char>, Seq<char>>,
        VaultError,
    > {
        match reply {
            Reply::Unreachable => Err(VaultError::TransportError),
            Reply::Answer { status, body } => response_outcome(status, body@, self.kv_version),
        }
    }
}

impl VaultSource {
    /// A source for a secret of the KV2 engine.
    pub fn new(
        vault_addr: String,
        vault_token: String,
        vault_mount: String,
        vault_path: String,
    ) -> (source: Self)
        ensures
            source@ == (VaultSourceView {
                address: vault_addr@,
                token: vault_token@,
                mount: vault_mount@,
                path: vault_path@,
                kv_version: KvVersion::V2,
            }),
    {
        Self { vault_addr, vault_token, vault_mount, vault_path, kv_version: KvVersion::V2 }
    }

    /// A source for a secret of the KV1 engine.
    pub fn new_v1(
        vault_addr: String,
        vault_token: String,
        vault_mount: String,
        vault_path: String,
    ) -> (source: Self)
        ensures
            source@ == (VaultSourceView {
                address: vault_addr@,
                token: vault_token@,
                mount: vault_mount@,
                path: vault_path@,
                kv_version: KvVersion::V1,
            }),
    {
        Self { vault_addr, vault_token, vault_mount, vault_path, kv_version: KvVersion::V1 }
    }

    /// Sets the engine's generation and leaves the rest as it is.
    pub fn set_kv_version(&mut self, kv_version: KvVersion)
        ensures
            final(self)@ == (VaultSourceView {
                address: old(self)@.address,
                token: old(self)@.token,
                mount: old(self)@.mount,
                path: old(self)@.path,
                kv_version: kv_version,
            }),
    {
        self.kv_version = kv_version;
    }

    /// The engine's generation.
    pub fn kv_version(&self) -> (kv_version: KvVersion)
        ensures
            kv_version == self@.kv_version,
    {
        self.kv_version
    }

    /// Builds the URL of the read API for this secret: the address without
    /// query and fragment and without a trailing slash of its path, then the
    /// segments of `v1/{mount}/{path}` for KV1 or of `v1/{mount}/data/{path}`
    /// for KV2. Where mount and path are written in plain characters and
    /// slashes, the URL ends with that API path.
    ///
    /// Nothing is sent. The address is refused with `InvalidAddress` where it
    /// is no absolute URL and with `NonHierarchicalAddress` where no segment
    /// can be appended to it. `None` comes back only where the URL might pass
    /// the 4 GiB that a URL can hold.
    pub fn build_kv_read_url(&self) -> (url: Option<Result<String, VaultError>>)
        ensures
            match url {
                None => self@.url_outcome() is None,
                Some(Err(error)) => self@.url_outcome() == Some(
                    Err::<Seq<char>, VaultError>(error),
                ),
                Some(Ok(text)) => {
                    &&& self@.url_outcome() == Some(Ok::<Seq<char>, VaultError>(text@))
                    &&& self@.is_plain() ==> text@ == plain_url(
                        parsed_parts(self@.address)->0,
                        self@.api_segments(),
                    )
                    &&& self@.is_plain() ==> ends_with(text@, self@.api_path())
                },
            },
    {
        let api_path = self.kv_version.get_api_path(
            self.vault_mount.as_str(),
            self.vault_path.as_str(),
        );
        let segments = split_segments(api_path.as_str());
        let url = read_url(self.vault_addr.as_str(), &segments);
        proof {
            if self@.is_plain() {
                lemma_plain_api_path(self@);
                lemma_join_of_split(self@.api_path());
                lemma_plain_url_ends_with_segments(
                    parsed_parts(self@.address)->0,
                    self@.api_segments(),
                );
            }
        }
        url
    }

    /// The request that reads this secret: a GET of the read URL with the
    /// token, as it was configured, in the header `X-Vault-Token`.
    pub fn request(&self) -> (request: Option<Result<ReadRequest, VaultError>>)
        ensures
            match request {
                None => self@.url_outcome() is None,
                Some(Err(error)) => self@.url_outcome() == Some(
                    Err::<Seq<char>, VaultError>(error),
                ),
                Some(Ok(request)) => {
                    &&& self@.url_outcome() == Some(Ok::<Seq<char>, VaultError>(request.url@))
                    &&& request.header_name@ == token_header_name()
                    &&& request.header_value@ == self@.token
                },
            },
    {
        match self.build_kv_read_url() {
            None => None,
            Some(Err(error)) => Some(Err(error)),
            Some(Ok(url)) => Some(
                Ok(
                    ReadRequest {
                        url,
                        header_name: String::from_str("X-Vault-Token"),
                        header_value: self.vault_token.clone(),
                    },
                ),
            ),
        }
    }

    /// Reads the secret out of the reply to the request. A request that got
    /// no answer is a `TransportError`; an answer with a status outside 200
    /// to 299 is a `RemoteError` with that status, whatever its body; any
    /// other answer is decoded, unwrapped for this source's engine and
    /// flattened.
    pub fn read_reply(&self, reply: &Reply) -> (outcome: Result<Secret, VaultError>)
        ensures
            agrees(outcome, self@.reply_outcome(*reply)),
    {
        match reply {
            Reply::Unreachable => Err(VaultError::TransportError),
            Reply::Answer { status, body } => read_response(
                *status,
                body.as_slice(),
                self.kv_version,
            ),
        }
    }
}

/// Where mount and path are written in plain characters and slashes, the
/// segments of the API path are plain, and the first of them is `v1`.
pub proof fn lemma_plain_api_path(source: VaultSourceView)
    requires
        plain_or_slash(source.mount),
        plain_or_slash(source.path),
    ensures
        plain_segments(source.api_segments()),
{
    let text = source.api_path();
    let kind = |c: char| is_plain_char(c);
    assert forall|k: int| 0 <= k < text.len() && text[k] != '/' implies kind(
        #[trigger] text[k],
    ) by {
        let mount_end = 3 + source.mount.len();
        if k < 3 {
        } else if k < mount_end {
            assert(text[k] == source.mount[k - 3]);
        } else {
            match source.kv_version {
                KvVersion::V1 => {
                    if k >= mount_end + 1 {
                        assert(text[k] == source.path[k - mount_end - 1]);
                    }
                },
                KvVersion::V2 => {
                    if k >= mount_end + 6 {
                        assert(text[k] == source.path[k - mount_end - 6]);
                    }
                },
            }
        }
    }
    lemma_split_keeps_kind(text, kind);
    lemma_api_path_segments(source.kv_version, source.mount, source.path);
    assert(source.api_segments()[0] == seq!['v', '1']);
}

/// A URL built of plain segments ends with the segments as they are
/// written, with slashes between them.
pub proof fn lemma_plain_url_ends_with_segments(base: UrlParts, segments: Seq<Seq<char>>)
    ensures
        ends_with(plain_url(base, segments), join_with_slash(segments)),
{
    let written = join_with_slash(segments);
    let text = plain_url(base, segments);
    assert(text.subrange(text.len() - written.len(), text.len() as int) =~= written);
}

} // verus!
