//! The fixed parties and tokens tests speak as: `NL/TNM` is the pair the specification's own
//! examples use.

use vstd::prelude::*;

use crate::strings::push_str;
use crate::transport::auth::{CredentialsToken, token_conformant};
use crate::types::ids::PartyRef;

verus! {

/// A credentials token with a fixed, obviously fake value: `test-token-` and the label. A
/// recognisable constant makes an accidental leak obvious and failures reproducible. The label
/// must make a conformant token.
pub fn test_token(label: &str) -> (t: CredentialsToken)
    requires
        token_conformant("test-token-"@ + label@),
    ensures
        t@ == "test-token-"@ + label@,
{
    let mut text = String::new();
    push_str(&mut text, "test-token-");
    push_str(&mut text, label);
    CredentialsToken::new(text.as_str()).unwrap()
}

/// The party a fixed-literal pair makes.
fn party(country_code: &str, party_id: &str) -> (p: PartyRef)
    requires
        crate::types::ids::party_ref_conformant(country_code@, party_id@),
    ensures
        p.country_code@ == country_code@,
        p.party_id@ == party_id@,
{
    PartyRef::new(country_code, party_id).unwrap()
}

/// The party a test CPO speaks as: `NL/TNM`.
pub fn test_cpo() -> (p: PartyRef)
    ensures
        p.country_code@ == "NL"@,
        p.party_id@ == "TNM"@,
{
    proof {
        reveal_strlit("NL");
        reveal_strlit("TNM");
    }
    party("NL", "TNM")
}

/// The party a test eMSP speaks as: `DE/ABC`.
pub fn test_msp() -> (p: PartyRef)
    ensures
        p.country_code@ == "DE"@,
        p.party_id@ == "ABC"@,
{
    proof {
        reveal_strlit("DE");
        reveal_strlit("ABC");
    }
    party("DE", "ABC")
}

/// The party a test hub speaks as: `NL/HUB`.
pub fn test_hub() -> (p: PartyRef)
    ensures
        p.country_code@ == "NL"@,
        p.party_id@ == "HUB"@,
{
    proof {
        reveal_strlit("NL");
        reveal_strlit("HUB");
    }
    party("NL", "HUB")
}

} // verus!
