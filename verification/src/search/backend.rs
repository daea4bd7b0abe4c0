//! Asking search.nixos.org.
use vstd::prelude::*;
use vstd::string::*;

use crate::text::{holds, stands_in_the_middle, trim, trimmed, trimmed_is_trimmed};

verus! {

/// The user that search.nixos.org lets in.
pub const SEARCH_USER: &'static str = "aWVSALXpZv";

/// The password of that user, which everybody knows.
pub const SEARCH_PASSWORD: &'static str = "X8gPHnzL52wFEekuxsfQ9cSh";

/// What to say of an error, by what was being done.
#[derive(Debug, Clone, Copy)]
pub struct SearchContexts {
    pub build: &'static str,
    pub execute: &'static str,
    pub parse: &'static str,
}

/// What is done in a search.
#[derive(Debug, Clone, Copy, PartialEq, Eq, Structural)]
pub enum SearchStage {
    /// The request is made up.
    Build,
    /// The request is sent.
    Execute,
    /// The answer is read.
    Read,
    /// The documents are taken out of the answer.
    Parse,
}

impl SearchContexts {
    /// What to say of an error at `stage`.
    pub open spec fn about(self, stage: SearchStage) -> Seq<char> {
        match stage {
            SearchStage::Build => self.build@,
            SearchStage::Execute => self.execute@,
            SearchStage::Read => "parsing response into the elasticsearch format"@,
            SearchStage::Parse => self.parse@,
        }
    }

    /// What to say of an error at `stage`.
    pub fn at(&self, stage: SearchStage) -> (r: &'static str)
        ensures
            r@ == self.about(stage),
    {
        match stage {
            SearchStage::Build => self.build,
            SearchStage::Execute => self.execute,
            SearchStage::Read => "parsing response into the elasticsearch format",
            SearchStage::Parse => self.parse,
        }
    }
}

/// Where a search goes, and the name that this program gives itself.
#[derive(Debug, Clone, PartialEq, Eq)]
pub struct SearchTarget {
    pub url: String,
    pub user_agent: String,
}

/// The address that a search of `channel` goes to, in the index of the version
/// `backend_version`.
pub open spec fn search_url(backend_version: Seq<char>, channel: Seq<char>) -> Seq<char> {
    "https://search.nixos.org/backend/latest-"@ + trimmed(backend_version) + "-"@ + channel + "/_search"@
}

/// Where a search of `channel` goes. `backend_version` is the version of the
/// index, `nh_version` that of this program.
pub fn search_target(backend_version: &str, channel: &str, nh_version: &str) -> (r: SearchTarget)
    ensures
        r.url@ == search_url(backend_version@, channel@),
        r.user_agent@ == "nh/"@ + nh_version@,
{
    let mut url = "https://search.nixos.org/backend/latest-".to_owned();
    url.append(trim(backend_version).as_str());
    url.append("-");
    url.append(channel);
    url.append("/_search");
    let mut user_agent = "nh/".to_owned();
    user_agent.append(nh_version);
    SearchTarget { url, user_agent }
}

/// An answer that is none.
#[derive(Debug, Clone, PartialEq, Eq)]
pub struct SearchRefused {
    pub status: String,
    pub channel: String,
}

impl SearchRefused {
    /// What happened.
    pub open spec fn fact(self) -> Seq<char> {
        "search.nixos.org returned HTTP "@ + self.status@ + " for channel '"@ + self.channel@ + "'"@
    }

    /// What happened.
    pub fn message(&self) -> (r: String)
        ensures
            r@ == self.fact(),
    {
        let mut out = "search.nixos.org returned HTTP ".to_owned();
        out.append(self.status.as_str());
        out.append(" for channel '");
        out.append(self.channel.as_str());
        out.append("'");
        out
    }

    /// What happened, and what may be the matter.
    pub fn advice(&self) -> (r: String)
        ensures
            r@ == "Error: "@ + self.fact()
                + ". This usually means the channel does not exist, is not indexed, or the request was malformed."@,
    {
        let mut out = "Error: ".to_owned();
        out.append(self.message().as_str());
        out.append(
            ". This usually means the channel does not exist, is not indexed, or the request was malformed.",
        );
        out
    }
}

/// Whether an answer with this status can be read.
pub fn check_response(success: bool, status: &str, channel: &str) -> (r: Result<(), SearchRefused>)
    ensures
        r is Ok <==> success,
        r matches Err(error) ==> error.status@ == status@ && error.channel@ == channel@,
{
    if success {
        Ok(())
    } else {
        Err(SearchRefused { status: status.to_owned(), channel: channel.to_owned() })
    }
}

/// The address of a search ends with the channel as it is given and the word
/// for a search, and before that holds the version without the whitespace
/// around it, and nothing else that depends on either.
pub proof fn address_names_version_and_channel(version: Seq<char>, channel: Seq<char>, other: Seq<char>)
    ensures
        ({
            let url = search_url(version, channel);
            let tail = trimmed(version) + "-"@ + channel + "/_search"@;
            &&& url.len() >= tail.len()
            &&& url.skip(url.len() - tail.len()) == tail
            &&& url.take(url.len() - tail.len()) == "https://search.nixos.org/backend/latest-"@
        }),
        search_url(trimmed(version), channel) == search_url(version, channel),
        search_url(version, channel) == search_url(version, other) ==> channel == other,
{
    trimmed_is_trimmed(version);
    let lead = "https://search.nixos.org/backend/latest-"@;
    let url = search_url(version, channel);
    let tail = trimmed(version) + "-"@ + channel + "/_search"@;
    assert(url =~= lead + tail);
    assert(url.skip(url.len() - tail.len()) =~= tail);
    assert(url.take(url.len() - tail.len()) =~= lead);
    if url == search_url(version, other) {
        let from = (lead + trimmed(version) + "-"@).len() as int;
        assert(channel.len() == other.len());
        assert(url.subrange(from, from + channel.len()) =~= channel);
        assert(search_url(version, other).subrange(from, from + channel.len()) =~= other);
    }
}

/// What the user is told of a search that was refused holds the status and the
/// channel.
pub proof fn refusal_is_told(refused: SearchRefused)
    ensures
        holds(refused.fact(), refused.status@),
        holds(refused.fact(), "'"@ + refused.channel@ + "'"@),
{
    let lead = "search.nixos.org returned HTTP "@;
    let middle = " for channel '"@;
    reveal_strlit(" for channel '");
    reveal_strlit("'");
    let named = "'"@ + refused.channel@ + "'"@;
    let all = refused.fact();
    stands_in_the_middle(lead, refused.status@, middle + refused.channel@ + "'"@);
    assert(lead + refused.status@ + (middle + refused.channel@ + "'"@) =~= all);
    let at = (lead + refused.status@).len() as int + 13;
    assert(all.subrange(at, at + named.len()) =~= named);
}

} // verus!
