//! Building the credential registry from configuration, failing on the
//! first entry that cannot be used.
use vstd::prelude::*;
use crate::grouping::Credential;
use crate::window::Period;

verus! {

#[verifier::external_type_specification]
#[verifier::external_body]
pub struct ExUrl(url::Url);

/// Whether `s` parses as an absolute URL.
pub uninterp spec fn uri_parses(s: Seq<char>) -> bool;

/// Relies on `url::Url::parse`: the parsed URL where `s` is a valid
/// absolute URL, and an error otherwise; the outcome depends on `s` alone.
#[verifier::external_body]
fn parse_uri(s: &str) -> (r: Option<url::Url>)
    ensures
        r.is_some() == uri_parses(s@),
{
    url::Url::parse(s).ok()
}

/// Why the configuration could not be turned into a registry; each names
/// the index of the first offending entry.
#[derive(Clone, Copy, Debug, PartialEq, Eq, Structural)]
pub enum RegistryError {
    /// The entry's provisioning URI is not a URL.
    InvalidUri(usize),
    /// No token generator could be made from the entry's URI.
    InvalidGenerator(usize),
}

/// Parses every provisioning URI, stopping at the first that is not a URL.
pub fn parse_uris(uris: &Vec<String>) -> (r: Result<Vec<url::Url>, RegistryError>)
    ensures
        r is Ok <==> forall|i: int| 0 <= i < uris@.len() ==> uri_parses(#[trigger] uris@[i]@),
        r matches Ok(v) ==> v@.len() == uris@.len(),
        r matches Err(e) ==> (e matches RegistryError::InvalidUri(i) && i < uris@.len()
            && !uri_parses(uris@[i as int]@) && forall|j: int|
            0 <= j < i ==> uri_parses(#[trigger] uris@[j]@)),
{
    let mut out: Vec<url::Url> = Vec::new();
    let mut i: usize = 0;
    while i < uris.len()
        invariant
            i <= uris@.len(),
            out@.len() == i,
            forall|j: int| 0 <= j < i ==> uri_parses(#[trigger] uris@[j]@),
        decreases uris@.len() - i,
    {
        match parse_uri(uris[i].as_str()) {
            Some(u) => out.push(u),
            None => return Err(RegistryError::InvalidUri(i)),
        }
        i += 1;
    }
    Ok(out)
}

/// A generator was made, with a positive period.
pub open spec fn usable_period(p: Option<u64>) -> bool {
    p matches Some(s) && s > 0
}

/// The registry for entries `names`, where `periods[i]` is the rotation
/// period in seconds of the generator made for entry `i`, or `None` where
/// none could be made. Fails on the first entry without a generator or
/// with a zero period.
pub fn build_registry(names: &Vec<String>, periods: &Vec<Option<u64>>) -> (r: Result<
    Vec<Credential>,
    RegistryError,
>)
    requires
        names@.len() == periods@.len(),
    ensures
        r is Ok <==> forall|i: int|
            0 <= i < periods@.len() ==> usable_period(#[trigger] periods@[i]),
        r matches Ok(c) ==> c@.len() == names@.len() && forall|i: int|
            0 <= i < c@.len() ==> (#[trigger] c@[i]).name@ == names@[i]@ && periods@[i] == Some(
                c@[i].period.seconds() as u64,
            ),
        r matches Err(e) ==> (e matches RegistryError::InvalidGenerator(i) && i < periods@.len()
            && !usable_period(periods@[i as int]) && forall|j: int|
            0 <= j < i ==> usable_period(#[trigger] periods@[j])),
{
    let mut out: Vec<Credential> = Vec::new();
    let mut i: usize = 0;
    while i < names.len()
        invariant
            names@.len() == periods@.len(),
            i <= names@.len(),
            out@.len() == i,
            forall|j: int| 0 <= j < i ==> usable_period(#[trigger] periods@[j]),
            forall|j: int|
                0 <= j < i ==> (#[trigger] out@[j]).name@ == names@[j]@ && periods@[j] == Some(
                    out@[j].period.seconds() as u64,
                ),
        decreases names@.len() - i,
    {
        let period = match periods[i] {
            Some(secs) => Period::new(secs),
            None => None,
        };
        match period {
            Some(period) => {
                out.push(Credential { name: names[i].clone(), period });
            },
            None => return Err(RegistryError::InvalidGenerator(i)),
        }
        i += 1;
    }
    Ok(out)
}

} // verus!
