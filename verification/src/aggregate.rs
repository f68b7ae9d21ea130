//! Joining per-provider outcomes into one ordered response, and rendering
//! it into display rows.
//!
//! The provider pool is a fixed, ordered registration list. Each provider
//! yields exactly one outcome per query — a translation or a captured
//! failure — and the aggregated response lists them in registration order,
//! whatever order the providers' network calls completed in. One provider's
//! failure never removes another's result.

use vstd::prelude::*;
use vstd::string::*;
use crate::{core_error_text, CoreError};
use crate::display::DisplayEntry;

verus! {

/// What one provider produced for one query.
#[derive(Debug, PartialEq, Eq)]
pub enum Outcome {
    Success(String),
    Failure(CoreError),
}

/// One provider's outcome, tagged with the provider's registered name.
#[derive(Debug, PartialEq, Eq)]
pub struct ProviderResult {
    pub provider_name: String,
    pub outcome: Outcome,
}

/// All providers' outcomes for one query, in registration order, tagged
/// with the query's issuance time.
#[derive(Debug, PartialEq, Eq)]
pub struct AggregatedResponse {
    pub issued_at: u64,
    pub ordered_results: Vec<ProviderResult>,
}

/// The fixed registration list of the provider pool, in order.
pub fn provider_names() -> (r: Vec<String>)
    ensures
        r@.len() == 2,
        r@[0]@ == "Google"@,
        r@[1]@ == "Microsoft"@,
{
    let mut v: Vec<String> = Vec::new();
    v.push("Google".to_owned());
    v.push("Microsoft".to_owned());
    v
}

/// Join the outcomes of one query: result `x` of the response is provider
/// `x`'s outcome under provider `x`'s name, whatever order the outcomes
/// were produced in, and no slot is dropped.
pub fn aggregate(issued_at: u64, names: Vec<String>, outcomes: Vec<Outcome>) -> (r:
    AggregatedResponse)
    requires
        names@.len() == outcomes@.len(),
    ensures
        r.issued_at == issued_at,
        r.ordered_results@.len() == names@.len(),
        forall|x: int|
            0 <= x < names@.len() ==> r.ordered_results@[x].provider_name == names@[x]
                && r.ordered_results@[x].outcome == outcomes@[x],
{
    let ghost gnames = names@;
    let ghost gout = outcomes@;
    let mut names = names;
    let mut outcomes = outcomes;
    let mut results: Vec<ProviderResult> = Vec::new();
    proof {
        assert(gnames.skip(0) =~= gnames);
        assert(gout.skip(0) =~= gout);
    }
    while names.len() > 0
        invariant
            names@.len() == outcomes@.len(),
            results@.len() + names@.len() == gnames.len(),
            gout.len() == gnames.len(),
            names@ == gnames.skip(results@.len() as int),
            outcomes@ == gout.skip(results@.len() as int),
            forall|x: int|
                0 <= x < results@.len() ==> results@[x].provider_name == gnames[x]
                    && results@[x].outcome == gout[x],
        decreases names@.len(),
    {
        let ghost k = results@.len() as int;
        proof {
            assert(names@[0] == gnames[k]);
            assert(outcomes@[0] == gout[k]);
            assert(names@.remove(0) =~= gnames.skip(k + 1));
            assert(outcomes@.remove(0) =~= gout.skip(k + 1));
        }
        let nm = names.remove(0);
        let oc = outcomes.remove(0);
        results.push(ProviderResult { provider_name: nm, outcome: oc });
    }
    AggregatedResponse { issued_at, ordered_results: results }
}

/// The main text of a rendered row: the translation, or the failure's
/// description.
pub open spec fn entry_title(o: Outcome) -> Seq<char> {
    match o {
        Outcome::Success(t) => t@,
        Outcome::Failure(e) => core_error_text(e),
    }
}

/// The secondary line of a rendered row: the provider's name and what the
/// row does.
pub open spec fn entry_subtitle(name: Seq<char>, o: Outcome) -> Seq<char> {
    match o {
        Outcome::Success(_) => name + " Translate, click to copy"@,
        Outcome::Failure(_) => name + " Translate failed"@,
    }
}

/// Whether a rendered row carries a copy action.
pub open spec fn entry_copy(o: Outcome) -> bool {
    o is Success
}

/// Render one provider's outcome as a display row: a successful translation
/// becomes a copyable row titled with the text; a failure becomes an inert
/// row titled with the failure's description.
pub fn translate_entry_from_result(name: &str, outcome: Outcome) -> (r: DisplayEntry)
    ensures
        r.title@ == entry_title(outcome),
        r.subtitle@ == entry_subtitle(name@, outcome),
        r.copy_action == entry_copy(outcome),
{
    let mut subtitle: String = name.to_owned();
    match outcome {
        Outcome::Success(t) => {
            subtitle.append(" Translate, click to copy");
            DisplayEntry { title: t, subtitle, copy_action: true }
        },
        Outcome::Failure(e) => {
            subtitle.append(" Translate failed");
            DisplayEntry { title: e.message(), subtitle, copy_action: false }
        },
    }
}

/// Render a whole aggregated response, row by row, keeping its order.
pub fn render_response(resp: AggregatedResponse) -> (v: Vec<DisplayEntry>)
    ensures
        v@.len() == resp.ordered_results@.len(),
        forall|x: int|
            0 <= x < v@.len() ==> v@[x].title@ == entry_title(resp.ordered_results@[x].outcome)
                && v@[x].subtitle@ == entry_subtitle(
                resp.ordered_results@[x].provider_name@,
                resp.ordered_results@[x].outcome,
            ) && v@[x].copy_action == entry_copy(resp.ordered_results@[x].outcome),
{
    let ghost grs = resp.ordered_results@;
    let mut rs = resp.ordered_results;
    let mut v: Vec<DisplayEntry> = Vec::new();
    proof {
        assert(grs.skip(0) =~= grs);
    }
    while rs.len() > 0
        invariant
            v@.len() + rs@.len() == grs.len(),
            rs@ == grs.skip(v@.len() as int),
            forall|x: int|
                0 <= x < v@.len() ==> v@[x].title@ == entry_title(grs[x].outcome)
                    && v@[x].subtitle@ == entry_subtitle(grs[x].provider_name@, grs[x].outcome)
                    && v@[x].copy_action == entry_copy(grs[x].outcome),
        decreases rs@.len(),
    {
        let ghost k = v@.len() as int;
        proof {
            assert(rs@[0] == grs[k]);
            assert(rs@.remove(0) =~= grs.skip(k + 1));
        }
        let pr = rs.remove(0);
        let ProviderResult { provider_name, outcome } = pr;
        let entry = translate_entry_from_result(provider_name.as_str(), outcome);
        v.push(entry);
    }
    v
}

} // verus!
