//! Credential resolution: how a raw credential token becomes a secret.
//!
//! Exactly one of three sources supplies the secret, in a fixed priority:
//! the literal token (unless it is the sentinel `-` or the caller asks for
//! external resolution), then an environment override, then an interactive
//! prompt.  The ordering is load-bearing: automation sets the environment
//! variable once and never touches the input stream, while humans fall back
//! to interactive entry.
//!
//! The decision is split from the I/O around it: [`credential_plan`] decides
//! from the token and the environment state whether a value is already at
//! hand or a prompt is needed, and [`credential_from_prompt`] judges what a
//! prompt returned.  The caller performs the prompt only when the plan says
//! so — [`lemma_env_overrides_prompt`] shows it never does while an
//! environment value is set.

use vstd::prelude::*;
use vstd::string::StringExecFns;
use crate::errors::CredentialError;
use crate::text::{is_dash, is_dash_token};

verus! {

/// What the environment offers for the server credential.
#[derive(Debug)]
pub enum EnvCredential {
    /// The override variable is not set.
    Unset,
    /// The override variable is set but its value is not valid text.
    NotText,
    /// The override variable is set to this text.
    Value(String),
}

/// The model of [`EnvCredential`].
pub enum EnvCredentialV {
    Unset,
    NotText,
    Value(Seq<char>),
}

impl View for EnvCredential {
    type V = EnvCredentialV;

    open spec fn view(&self) -> EnvCredentialV {
        match self {
            EnvCredential::Unset => EnvCredentialV::Unset,
            EnvCredential::NotText => EnvCredentialV::NotText,
            EnvCredential::Value(v) => EnvCredentialV::Value(v@),
        }
    }
}

/// The decision on how to obtain the secret.
#[derive(Debug)]
pub enum CredentialPlan {
    /// The secret is this value; no input stream is touched.
    Ready(String),
    /// No value is at hand: prompt interactively.
    Prompt,
    /// Resolution already failed (the environment value is not text).
    Reject(CredentialError),
}

/// The model of [`CredentialPlan`].
pub enum CredentialPlanV {
    Ready(Seq<char>),
    Prompt,
    Reject(CredentialError),
}

impl View for CredentialPlan {
    type V = CredentialPlanV;

    open spec fn view(&self) -> CredentialPlanV {
        match self {
            CredentialPlan::Ready(v) => CredentialPlanV::Ready(v@),
            CredentialPlan::Prompt => CredentialPlanV::Prompt,
            CredentialPlan::Reject(e) => CredentialPlanV::Reject(*e),
        }
    }
}

/// The resolution priority: the literal token unless it is the sentinel `-`
/// or external resolution is demanded; then the environment; then a prompt.
pub open spec fn spec_resolve(
    token: Seq<char>,
    external_only: bool,
    env: EnvCredentialV,
) -> CredentialPlanV {
    if !external_only && !is_dash(token) {
        CredentialPlanV::Ready(token)
    } else {
        match env {
            EnvCredentialV::Value(v) => CredentialPlanV::Ready(v),
            EnvCredentialV::NotText => CredentialPlanV::Reject(CredentialError::Encoding),
            EnvCredentialV::Unset => CredentialPlanV::Prompt,
        }
    }
}

/// Decides how to obtain the secret, before any input stream is touched.
/// `external_only` is set by ad-hoc addressing, which always resolves
/// externally and skips the literal-token branch.
pub fn credential_plan(token: &str, external_only: bool, env: &EnvCredential) -> (r:
    CredentialPlan)
    ensures
        r@ == spec_resolve(token@, external_only, env@),
{
    if !external_only && !is_dash_token(token) {
        CredentialPlan::Ready(String::from_str(token))
    } else {
        match env {
            EnvCredential::Value(v) => CredentialPlan::Ready(v.clone()),
            EnvCredential::NotText => CredentialPlan::Reject(CredentialError::Encoding),
            EnvCredential::Unset => CredentialPlan::Prompt,
        }
    }
}

/// Judges what the interactive prompt returned: one line read is the secret;
/// end of stream with no data read is a resolution failure.
pub fn credential_from_prompt(line: Option<String>) -> (r: Result<String, CredentialError>)
    ensures
        line matches Option::Some(l) ==> r matches Result::Ok(s) && s@ == l@,
        line is None ==> r == Result::<String, CredentialError>::Err(CredentialError::NoInput),
{
    match line {
        Option::Some(l) => Result::Ok(l),
        Option::None => Result::Err(CredentialError::NoInput),
    }
}

/// Law: with the sentinel token `-` (or an external-resolution demand) and
/// an environment value set, resolution yields the environment value and
/// never reaches the prompt.
pub proof fn lemma_env_overrides_prompt(token: Seq<char>, v: Seq<char>, external_only: bool)
    requires
        is_dash(token) || external_only,
    ensures
        spec_resolve(token, external_only, EnvCredentialV::Value(v)) == CredentialPlanV::Ready(v),
        !(spec_resolve(token, external_only, EnvCredentialV::Value(v)) is Prompt),
{
}

} // verus!
