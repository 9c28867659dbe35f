//! The two generations of Vault's key-value engine and the API path of each.

use crate::segments::{
    join_with_slash, lemma_join_of_split, lemma_split_at_slash, lemma_split_of_slash_free,
    split_on_slash,
};
use vstd::prelude::*;
use vstd::string::*;

verus! {

/// Generation of the key-value engine that a mount runs.
#[derive(Debug, Clone, Copy, PartialEq, Eq, Structural)]
pub enum KvVersion {
    /// The unversioned engine: a secret is read at `v1/{mount}/{path}`.
    V1,
    /// The versioned engine: a secret is read at `v1/{mount}/data/{path}`.
    V2,
}

/// The characters `v1/`, with which every API path starts.
pub open spec fn api_root() -> Seq<char> {
    seq!['v', '1', '/']
}

/// What stands between mount and secret path: `/` for KV1, `/data/` for KV2.
pub open spec fn api_infix(version: KvVersion) -> Seq<char> {
    match version {
        KvVersion::V1 => seq!['/'],
        KvVersion::V2 => seq!['/', 'd', 'a', 't', 'a', '/'],
    }
}

/// The API path of a secret: `v1/{mount}/{path}` or `v1/{mount}/data/{path}`.
pub open spec fn api_path_text(version: KvVersion, mount: Seq<char>, path: Seq<char>) -> Seq<char> {
    api_root() + mount + api_infix(version) + path
}

/// The segments of an API path: `v1`, the pieces of the mount, `data` for
/// KV2, and the pieces of the secret's path.
pub open spec fn api_segments(version: KvVersion, mount: Seq<char>, path: Seq<char>) -> Seq<
    Seq<char>,
> {
    match version {
        KvVersion::V1 => seq![seq!['v', '1']] + split_on_slash(mount) + split_on_slash(path),
        KvVersion::V2 => seq![seq!['v', '1']] + split_on_slash(mount) + seq![
            seq!['d', 'a', 't', 'a'],
        ] + split_on_slash(path),
    }
}

/// Cut at its slashes, `v1/{mount}/{path}` falls into `v1`, the pieces of the
/// mount and the pieces of the path, and `v1/{mount}/data/{path}` has `data`
/// between the last two. Read with a slash between them, the segments are
/// the API path again.
pub proof fn lemma_api_path_segments(version: KvVersion, mount: Seq<char>, path: Seq<char>)
    ensures
        split_on_slash(api_path_text(version, mount, path)) == api_segments(version, mount, path),
        join_with_slash(api_segments(version, mount, path)) == api_path_text(version, mount, path),
{
    let root = seq!['v', '1'];
    let data = seq!['d', 'a', 't', 'a'];
    lemma_split_of_slash_free(root);
    lemma_split_of_slash_free(data);
    lemma_join_of_split(api_path_text(version, mount, path));
    match version {
        KvVersion::V1 => {
            let rest = mount.push('/') + path;
            assert(api_path_text(version, mount, path) =~= root.push('/') + rest);
            lemma_split_at_slash(root, rest);
            lemma_split_at_slash(mount, path);
            assert(split_on_slash(root) + (split_on_slash(mount) + split_on_slash(path))
                =~= api_segments(version, mount, path));
        },
        KvVersion::V2 => {
            let last = data.push('/') + path;
            let rest = mount.push('/') + last;
            assert(api_path_text(version, mount, path) =~= root.push('/') + rest);
            lemma_split_at_slash(root, rest);
            lemma_split_at_slash(mount, last);
            lemma_split_at_slash(data, path);
            assert(split_on_slash(root) + (split_on_slash(mount) + (split_on_slash(data)
                + split_on_slash(path))) =~= api_segments(version, mount, path));
        },
    }
}

impl KvVersion {
    /// Builds the path of the read API for a secret, relative to the server's
    /// address and without a leading slash.
    pub fn get_api_path(&self, mount: &str, path: &str) -> (api_path: String)
        ensures
            api_path@ == api_path_text(*self, mount@, path@),
    {
        let mut api_path = String::from_str("v1/");
        proof {
            reveal_strlit("v1/");
            assert(api_path@ =~= api_root());
        }
        api_path.append(mount);
        match self {
            KvVersion::V1 => {
                proof {
                    reveal_strlit("/");
                    assert("/"@ =~= api_infix(KvVersion::V1));
                }
                api_path.append("/");
            },
            KvVersion::V2 => {
                proof {
                    reveal_strlit("/data/");
                    assert("/data/"@ =~= api_infix(KvVersion::V2));
                }
                api_path.append("/data/");
            },
        }
        api_path.append(path);
        api_path
    }
}

} // verus!
