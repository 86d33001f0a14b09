//! Bypass strategy generator: the fixed, ordered table of crafted `Origin`
//! values derived from the target host.

use vstd::prelude::*;
use vstd::string::StringExecFns;

verus! {

/// One bypass strategy: a display name and the candidate `Origin` value that
/// the probe for this strategy sends.
#[derive(Debug)]
pub struct Strategy {
    pub name: String,
    pub value: String,
}

/// The exact content of the strategy table for a decoded target URL `url`
/// with host `host`, a third-party test value and an invalid-origin test
/// value.  The duplicated entries (3rd/6th/8th and 5th/15th) are deliberate
/// and kept for compatibility with the expected report layout.
pub open spec fn strategy_table_ok(
    s: Seq<Strategy>,
    url: Seq<char>,
    host: Seq<char>,
    thirdparty: Seq<char>,
    invalid: Seq<char>,
) -> bool {
    &&& s.len() == 15
    &&& s[0].name@ == "Reflected Origin"@ && s[0].value@ == url
    &&& s[1].name@ == "Trusted Subdomains"@ && s[1].value@ == "http://subdomain."@ + host
    &&& s[2].name@ == "Regexp bypass"@ && s[2].value@ == "http://"@ + host + ".attacker.com"@
    &&& s[3].name@ == "Null Origin"@ && s[3].value@ == "null"@
    &&& s[4].name@ == "Breaking TLS"@ && s[4].value@ == "http://"@ + host
    &&& s[5].name@ == "Advanced Regexp bypass"@ && s[5].value@ == "http://"@ + host
        + ".attacker.com"@
    &&& s[6].name@ == "Pre-domain Bypass"@ && s[6].value@ == "http://attacker.com."@ + host
    &&& s[7].name@ == "Post-domain Bypass"@ && s[7].value@ == "http://"@ + host
        + ".attacker.com"@
    &&& s[8].name@ == "Backtick Bypass"@ && s[8].value@ == "http://`"@ + host + "`"@
    &&& s[9].name@ == "Unescaped Dot Bypass"@ && s[9].value@ == "http://"@ + host + ".com"@
    &&& s[10].name@ == "Underscore Bypass"@ && s[10].value@ == "http://"@ + host + "_com"@
    &&& s[11].name@ == "Invalid Value"@ && s[11].value@ == invalid
    &&& s[12].name@ == "Wildcard Value"@ && s[12].value@ == "*"@
    &&& s[13].name@ == "Third-party Allowance Test"@ && s[13].value@ == thirdparty
    &&& s[14].name@ == "HTTP Allowance Test"@ && s[14].value@ == "http://"@ + host
}

/// Concatenation of two string slices.
fn cat2(a: &str, b: &str) -> (r: String)
    ensures
        r@ == a@ + b@,
{
    String::from_str(a).concat(b)
}

/// Concatenation of three string slices.
fn cat3(a: &str, b: &str, c: &str) -> (r: String)
    ensures
        r@ == a@ + b@ + c@,
{
    String::from_str(a).concat(b).concat(c)
}

/// Produce the full strategy table, in its fixed order, for the decoded
/// target URL `url` with host `host`.  `thirdparty` and `invalid_origin` are
/// the externally supplied test values and enter the table verbatim.
pub fn generate_strategies(
    url: &String,
    host: &String,
    thirdparty: &String,
    invalid_origin: &String,
) -> (r: Vec<Strategy>)
    ensures
        strategy_table_ok(r@, url@, host@, thirdparty@, invalid_origin@),
{
    let mut r: Vec<Strategy> = Vec::new();
    r.push(Strategy { name: String::from_str("Reflected Origin"), value: url.clone() });
    r.push(
        Strategy {
            name: String::from_str("Trusted Subdomains"),
            value: cat2("http://subdomain.", host.as_str()),
        },
    );
    r.push(
        Strategy {
            name: String::from_str("Regexp bypass"),
            value: cat3("http://", host.as_str(), ".attacker.com"),
        },
    );
    r.push(Strategy { name: String::from_str("Null Origin"), value: String::from_str("null") });
    r.push(
        Strategy { name: String::from_str("Breaking TLS"), value: cat2("http://", host.as_str()) },
    );
    r.push(
        Strategy {
            name: String::from_str("Advanced Regexp bypass"),
            value: cat3("http://", host.as_str(), ".attacker.com"),
        },
    );
    r.push(
        Strategy {
            name: String::from_str("Pre-domain Bypass"),
            value: cat2("http://attacker.com.", host.as_str()),
        },
    );
    r.push(
        Strategy {
            name: String::from_str("Post-domain Bypass"),
            value: cat3("http://", host.as_str(), ".attacker.com"),
        },
    );
    r.push(
        Strategy {
            name: String::from_str("Backtick Bypass"),
            value: cat3("http://`", host.as_str(), "`"),
        },
    );
    r.push(
        Strategy {
            name: String::from_str("Unescaped Dot Bypass"),
            value: cat3("http://", host.as_str(), ".com"),
        },
    );
    r.push(
        Strategy {
            name: String::from_str("Underscore Bypass"),
            value: cat3("http://", host.as_str(), "_com"),
        },
    );
    r.push(Strategy { name: String::from_str("Invalid Value"), value: invalid_origin.clone() });
    r.push(Strategy { name: String::from_str("Wildcard Value"), value: String::from_str("*") });
    r.push(
        Strategy {
            name: String::from_str("Third-party Allowance Test"),
            value: thirdparty.clone(),
        },
    );
    r.push(
        Strategy {
            name: String::from_str("HTTP Allowance Test"),
            value: cat2("http://", host.as_str()),
        },
    );
    r
}

/// Law: the table deliberately repeats two candidate values.  The 3rd, 6th
/// and 8th entries agree, and the 5th and 15th entries agree, whatever the
/// host is.
pub proof fn lemma_duplicate_strategies(
    s: Seq<Strategy>,
    url: Seq<char>,
    host: Seq<char>,
    thirdparty: Seq<char>,
    invalid: Seq<char>,
)
    requires
        strategy_table_ok(s, url, host, thirdparty, invalid),
    ensures
        s[2].value@ == s[5].value@,
        s[5].value@ == s[7].value@,
        s[4].value@ == s[14].value@,
{
}

} // verus!
