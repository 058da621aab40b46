//! The registration workflow: a fresh correlation key, the container
//! environment carrying the repository descriptor and the key's prefix,
//! and the run options handed to the orchestrator.

use vstd::prelude::*;
use vstd::string::StringExecFns;
use crate::run::RunOpts;
use crate::text::{make_prefix, prefix_for};

verus! {

/// The hosting platform of a registered repository.
#[derive(PartialEq, Eq, Structural, Clone, Copy, Debug)]
pub enum Platform {
    GitHub,
    GitLab,
    Bitbucket,
}

/// A repository descriptor as the registration request carries it.
#[derive(Clone, Debug)]
pub struct Repo {
    pub owner: String,
    pub name: String,
    pub platform: Platform,
    pub token: String,
}

/// The label a platform is written as in the container's environment.
pub open spec fn platform_label_spec(p: Platform) -> Seq<char> {
    match p {
        Platform::GitHub => "GitHub"@,
        Platform::GitLab => "GitLab"@,
        Platform::Bitbucket => "Bitbucket"@,
    }
}

/// Writes a platform as its environment label.
pub fn platform_label(p: &Platform) -> (r: String)
    ensures
        r@ == platform_label_spec(*p),
{
    match p {
        Platform::GitHub => String::from_str("GitHub"),
        Platform::GitLab => String::from_str("GitLab"),
        Platform::Bitbucket => String::from_str("Bitbucket"),
    }
}

/// Relies on `uuid::Uuid::new_v4` and its `Display` form: a fresh random
/// version-4 UUID, rendered hyphenated and lowercase, which is 36
/// characters long. The value itself is random; nothing more is assumed
/// of it.
#[verifier::external_body]
fn fresh_key() -> (r: String)
    ensures
        r@.len() == 36,
{
    uuid::Uuid::new_v4().to_string()
}

/// One registration ready to run: the options for the orchestrator and
/// the correlation key returned to the caller.
pub struct Registration {
    pub opts: RunOpts,
    pub key: String,
}

/// The environment a registration injects, as key/value text pairs.
pub open spec fn registration_env(repo: Repo, key: Seq<char>) -> Seq<(Seq<char>, Seq<char>)> {
    seq![
        ("PLATFORM"@, platform_label_spec(repo.platform)),
        ("OWNER"@, repo.owner@),
        ("NAME"@, repo.name@),
        ("TOKEN"@, repo.token@),
        ("CORRELATION_PREFIX"@, prefix_for(key)),
    ]
}

/// Builds one registration: a fresh 36-character correlation key, the
/// image reference `alpine:<version>`, the environment carrying the
/// repository fields and the key's literal prefix, and removal off.
pub fn make_registration(version: &str, repo: &Repo) -> (r: Registration)
    ensures
        r.key@.len() == 36,
        r.opts.image@ == "alpine:"@ + version@,
        r.opts.remove == false,
        r.opts.env matches Some(env) && env@.map(
            |i: int, p: (String, String)| (p.0@, p.1@),
        ) == registration_env(*repo, r.key@),
{
    let key = fresh_key();
    let prefix = make_prefix(key.as_str());
    let mut image = String::from_str("alpine:");
    image.append(version);
    let mut env: Vec<(String, String)> = Vec::new();
    env.push((String::from_str("PLATFORM"), platform_label(&repo.platform)));
    env.push((String::from_str("OWNER"), repo.owner.clone()));
    env.push((String::from_str("NAME"), repo.name.clone()));
    env.push((String::from_str("TOKEN"), repo.token.clone()));
    env.push((String::from_str("CORRELATION_PREFIX"), prefix));
    proof {
        assert(env@.map(|i: int, p: (String, String)| (p.0@, p.1@)) =~= registration_env(
            *repo,
            key@,
        ));
    }
    let opts = RunOpts::new(image, Some(env), Some(false));
    Registration { opts, key }
}

} // verus!
