//! Vulnerability classifier: maps the Origin value that was sent and the
//! server's reflected CORS response headers to a verdict.

use vstd::prelude::*;
use vstd::string::StringExecFns;

verus! {

/// Classification of one probe's response.
#[derive(Clone, Copy, Debug, PartialEq, Eq, Structural)]
pub enum Verdict {
    /// ACAO reflects the sent Origin and credentials are allowed.
    Vulnerable,
    /// ACAO reflects the sent Origin but credentials are not allowed.
    PotentiallyVulnerableReflected,
    /// The ACAO header is absent or empty.
    PotentiallyVulnerableEmptyAcao,
    /// ACAO names some other, fixed origin.
    NotVulnerable,
}

/// The classification rule, in priority order: reflection with credentials,
/// reflection without credentials, empty ACAO, anything else.  Comparison is
/// exact, case-sensitive string equality.
pub open spec fn spec_classify(sent: Seq<char>, acao: Seq<char>, acac: Seq<char>) -> Verdict {
    if acao == sent && acac == "true"@ {
        Verdict::Vulnerable
    } else if acao == sent {
        Verdict::PotentiallyVulnerableReflected
    } else if acao.len() == 0 {
        Verdict::PotentiallyVulnerableEmptyAcao
    } else {
        Verdict::NotVulnerable
    }
}

/// The report tag of each verdict.
pub open spec fn spec_verdict_label(v: Verdict) -> Seq<char> {
    match v {
        Verdict::Vulnerable => "[Vulnerable]"@,
        Verdict::PotentiallyVulnerableReflected => (
        "[Potentially Vulnerable] (Reflected Origin but without credentials)"@),
        Verdict::PotentiallyVulnerableEmptyAcao => (
        "[Potentially Vulnerable] (Access-Control-Allow-Origin header is empty)"@),
        Verdict::NotVulnerable => "[Not Vulnerable]"@,
    }
}

impl Verdict {
    /// The tag a report prints for this verdict.
    pub fn label(&self) -> (r: String)
        ensures
            r@ == spec_verdict_label(*self),
    {
        match self {
            Verdict::Vulnerable => String::from_str("[Vulnerable]"),
            Verdict::PotentiallyVulnerableReflected => String::from_str(
                "[Potentially Vulnerable] (Reflected Origin but without credentials)",
            ),
            Verdict::PotentiallyVulnerableEmptyAcao => String::from_str(
                "[Potentially Vulnerable] (Access-Control-Allow-Origin header is empty)",
            ),
            Verdict::NotVulnerable => String::from_str("[Not Vulnerable]"),
        }
    }
}

/// Classify one probe: `sent` is the Origin value the request carried, `acao`
/// and `acac` are the response's `Access-Control-Allow-Origin` and
/// `Access-Control-Allow-Credentials` values, each the empty string when the
/// header was absent.
pub fn classify(sent: &String, acao: &String, acac: &String) -> (v: Verdict)
    ensures
        v == spec_classify(sent@, acao@, acac@),
{
    let truth = String::from_str("true");
    let reflected = acao.eq(sent);
    if reflected && acac.eq(&truth) {
        Verdict::Vulnerable
    } else if reflected {
        Verdict::PotentiallyVulnerableReflected
    } else if acao.as_str().unicode_len() == 0 {
        Verdict::PotentiallyVulnerableEmptyAcao
    } else {
        Verdict::NotVulnerable
    }
}

} // verus!
