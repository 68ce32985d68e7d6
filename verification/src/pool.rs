//! Pool state, the query that asks a contract for it, and the refresh of a set of pools.

use crate::json::{items, json_items, json_member, json_parse, json_text, member, parse_document, text};
use crate::snapshot::PoolStateMap;
use vstd::prelude::*;
use vstd::string::StringExecFns;

verus! {

/// The query that asks a pool contract for its whole state, encoded for a URL.
pub const POOL_QUERY: &'static str = "eyJwb29sIjp7fX0=";

/// The state of one pool, as its contract reports it.
#[derive(Debug, Clone, PartialEq)]
pub struct PoolData {
    /// assets (info & amount) in the pool
    pub assets: Vec<serde_json::Value>,
    /// total share of the pool
    pub total_share: String,
}

/// What a `PoolData` holds: its assets, in order, and its total share, character by character.
pub struct PoolState {
    pub assets: Seq<serde_json::Value>,
    pub total_share: Seq<char>,
}

impl View for PoolData {
    type V = PoolState;

    open spec fn view(&self) -> PoolState {
        PoolState { assets: self.assets@, total_share: self.total_share@ }
    }
}

/// The pool state that a document holds: the document is an object whose member
/// `query_result` is an object with an array under `assets` and a string under
/// `total_share`. Other members are passed over.
pub open spec fn pool_in_document(doc: serde_json::Value) -> Option<PoolState> {
    match json_member(doc, "query_result"@) {
        Some(result) => match (json_member(result, "assets"@), json_member(result, "total_share"@)) {
            (Some(assets), Some(share)) => match (json_items(assets), json_text(share)) {
                (Some(assets), Some(total_share)) => Some(PoolState { assets, total_share }),
                _ => None,
            },
            _ => None,
        },
        None => None,
    }
}

/// The pool state that the body of a reply holds.
pub open spec fn pool_in_body(body: Seq<char>) -> Option<PoolState> {
    match json_parse(body) {
        Some(doc) => pool_in_document(doc),
        None => None,
    }
}

/// The reply to a state query, read as a typed document.
#[derive(Debug, Clone, PartialEq)]
pub struct QueryPoolResponse {
    query_result: PoolData,
}

impl View for QueryPoolResponse {
    type V = PoolState;

    closed spec fn view(&self) -> PoolState {
        self.query_result@
    }
}

impl QueryPoolResponse {
    /// Reads the reply out of a document.
    pub fn from_document(doc: &serde_json::Value) -> (r: Option<QueryPoolResponse>)
        ensures
            match r {
                Some(response) => pool_in_document(*doc) == Some(response@),
                None => pool_in_document(*doc) is None,
            },
    {
        let result = match member(doc, "query_result") {
            Some(result) => result,
            None => {
                return None;
            },
        };
        let assets = match member(result, "assets") {
            Some(assets) => assets,
            None => {
                return None;
            },
        };
        let share = match member(result, "total_share") {
            Some(share) => share,
            None => {
                return None;
            },
        };
        let assets = match items(assets) {
            Some(assets) => assets,
            None => {
                return None;
            },
        };
        let total_share = match text(share) {
            Some(total_share) => total_share,
            None => {
                return None;
            },
        };
        Some(QueryPoolResponse { query_result: PoolData { assets, total_share } })
    }

    /// Reads the reply out of the body of an HTTP response.
    pub fn from_body(body: &str) -> (r: Option<QueryPoolResponse>)
        ensures
            match r {
                Some(response) => pool_in_body(body@) == Some(response@),
                None => pool_in_body(body@) is None,
            },
    {
        match parse_document(body) {
            Ok(doc) => QueryPoolResponse::from_document(&doc),
            Err(_) => None,
        }
    }

    /// The pool state that the reply carries.
    pub fn into_query_result(self) -> (pool: PoolData)
        ensures
            pool@ == self@,
    {
        self.query_result
    }
}

/// What came back for one state query.
#[derive(Debug, Clone, PartialEq)]
pub enum QueryReply {
    /// The query could not be sent, or its reply could not be read.
    Failed,
    /// The endpoint replied with a status and a body.
    Response { status: u16, body: String },
}

impl QueryReply {
    /// The pool state that the reply gives: the one in its body, where the status is one
    /// of success (200 to 299).
    pub open spec fn spec_pool(self) -> Option<PoolState> {
        match self {
            QueryReply::Failed => None,
            QueryReply::Response { status, body } => if 200 <= status <= 299 {
                pool_in_body(body@)
            } else {
                None
            },
        }
    }

    /// The pool state that the reply gives, if it gives one.
    pub fn pool(&self) -> (r: Option<PoolData>)
        ensures
            match r {
                Some(pool) => self.spec_pool() == Some(pool@),
                None => self.spec_pool() is None,
            },
    {
        match self {
            QueryReply::Failed => None,
            QueryReply::Response { status, body } => {
                if 200 <= *status && *status <= 299 {
                    match QueryPoolResponse::from_body(body.as_str()) {
                        Some(response) => Some(response.into_query_result()),
                        None => None,
                    }
                } else {
                    None
                }
            },
        }
    }
}

/// The snapshot after one refresh cycle: each address, in order, is mapped to the state
/// that its reply gives; an address whose reply gives none, or that has no reply, is
/// passed over.
pub open spec fn refreshed(addresses: Seq<String>, replies: Seq<QueryReply>) -> Map<
    Seq<char>,
    PoolState,
>
    decreases addresses.len(),
{
    if addresses.len() == 0 {
        Map::empty()
    } else {
        let earlier = refreshed(addresses.drop_last(), replies);
        let last = addresses.len() - 1;
        if last < replies.len() && replies[last].spec_pool() is Some {
            earlier.insert(addresses[last]@, replies[last].spec_pool()->Some_0)
        } else {
            earlier
        }
    }
}

/// Whether the reply at position `i` gives a pool state.
pub open spec fn answered(replies: Seq<QueryReply>, i: int) -> bool {
    0 <= i < replies.len() && replies[i].spec_pool() is Some
}

/// The addresses of a list, as a set.
pub open spec fn address_set(addresses: Seq<String>) -> Set<Seq<char>> {
    Set::new(|key: Seq<char>| exists|i: int| 0 <= i < addresses.len() && #[trigger] addresses[i]@ == key)
}

/// An address is in the snapshot exactly when the reply at one of its positions in the
/// list gave a state.
pub proof fn lemma_refreshed_keys(addresses: Seq<String>, replies: Seq<QueryReply>, key: Seq<char>)
    ensures
        refreshed(addresses, replies).dom().contains(key) <==> exists|i: int|
            0 <= i < addresses.len() && answered(replies, i) && #[trigger] addresses[i]@ == key,
    decreases addresses.len(),
{
    if addresses.len() > 0 {
        let front = addresses.drop_last();
        let last = addresses.len() - 1;
        lemma_refreshed_keys(front, replies, key);
        if refreshed(addresses, replies).dom().contains(key) {
            if refreshed(front, replies).dom().contains(key) {
                let i = choose|i: int|
                    0 <= i < front.len() && answered(replies, i) && #[trigger] front[i]@ == key;
                assert(addresses[i]@ == key);
            } else {
                assert(addresses[last]@ == key);
            }
        }
        if exists|i: int|
            0 <= i < addresses.len() && answered(replies, i) && #[trigger] addresses[i]@ == key {
            let i = choose|i: int|
                0 <= i < addresses.len() && answered(replies, i) && #[trigger] addresses[i]@ == key;
            if i < last {
                assert(front[i]@ == key);
            }
        }
    }
}

/// The snapshot of a cycle holds no address but those of the list, and no more entries
/// than the list has addresses; where every reply gave a state it holds them all.
pub proof fn lemma_refreshed_within_addresses(addresses: Seq<String>, replies: Seq<QueryReply>)
    ensures
        refreshed(addresses, replies).dom().subset_of(address_set(addresses)),
        refreshed(addresses, replies).dom().finite(),
        refreshed(addresses, replies).len() <= addresses.len(),
        (forall|i: int| 0 <= i < addresses.len() ==> answered(replies, i)) ==> refreshed(
            addresses,
            replies,
        ).dom() == address_set(addresses),
    decreases addresses.len(),
{
    let pools = refreshed(addresses, replies);
    assert forall|key: Seq<char>| pools.dom().contains(key) implies address_set(
        addresses,
    ).contains(key) by {
        lemma_refreshed_keys(addresses, replies, key);
    }
    if addresses.len() > 0 {
        lemma_refreshed_within_addresses(addresses.drop_last(), replies);
    }
    if forall|i: int| 0 <= i < addresses.len() ==> answered(replies, i) {
        assert forall|key: Seq<char>| address_set(addresses).contains(key) implies pools.dom().contains(
            key,
        ) by {
            lemma_refreshed_keys(addresses, replies, key);
        }
        assert(pools.dom() =~= address_set(addresses));
    }
}

/// The state that a reply gave stands in the snapshot under its address, as it was
/// read, unless a later reply for the same address gave a state too.
pub proof fn lemma_refreshed_entry(addresses: Seq<String>, replies: Seq<QueryReply>, i: int)
    requires
        0 <= i < addresses.len(),
        answered(replies, i),
        forall|j: int|
            i < j < addresses.len() && #[trigger] addresses[j]@ == addresses[i]@ ==> !answered(
                replies,
                j,
            ),
    ensures
        refreshed(addresses, replies).dom().contains(addresses[i]@),
        refreshed(addresses, replies)[addresses[i]@] == replies[i].spec_pool()->Some_0,
    decreases addresses.len(),
{
    let last = addresses.len() - 1;
    if i < last {
        let front = addresses.drop_last();
        assert forall|j: int| i < j < front.len() && #[trigger] front[j]@ == front[i]@ implies !answered(
            replies,
            j,
        ) by {
            assert(addresses[j]@ == addresses[i]@);
        }
        lemma_refreshed_entry(front, replies, i);
        if addresses[last]@ == addresses[i]@ {
            assert(!answered(replies, last));
        }
    }
}

/// A query that failed, or whose reply gave no state, does not keep a later address out
/// of the snapshot.
pub proof fn lemma_failure_is_passed_over(
    addresses: Seq<String>,
    replies: Seq<QueryReply>,
    failed: int,
    later: int,
)
    requires
        0 <= failed < later < addresses.len(),
        !answered(replies, failed),
        answered(replies, later),
    ensures
        refreshed(addresses, replies).dom().contains(addresses[later]@),
{
    lemma_refreshed_keys(addresses, replies, addresses[later]@);
}

/// The URL that asks the node at `chain_url` for the state of the contract at `address`.
pub open spec fn spec_query_url(chain_url: Seq<char>, address: Seq<char>) -> Seq<char> {
    chain_url + "/terra/wasm/v1beta1/contracts/"@ + address + "/store?query_msg="@ + POOL_QUERY@
}

/// The node's query endpoint.
#[derive(Debug, Clone, PartialEq)]
pub struct PoolManager {
    pub chain_url: String,
}

impl PoolManager {
    /// The URL of the state query for one contract.
    pub fn query_url(&self, pool_contract: &str) -> (url: String)
        ensures
            url@ == spec_query_url(self.chain_url@, pool_contract@),
    {
        let mut url = self.chain_url.clone();
        url.append("/terra/wasm/v1beta1/contracts/");
        url.append(pool_contract);
        url.append("/store?query_msg=");
        url.append(POOL_QUERY);
        url
    }

    /// Builds the snapshot of one refresh cycle from the replies to the queries, the reply
    /// at each position being the one for the address at that position.
    pub fn update_pools(&self, pools_address: &[String], replies: &[QueryReply]) -> (pools:
        PoolStateMap)
        ensures
            pools@ == refreshed(pools_address@, replies@),
            pools@.dom().finite(),
            pools@.len() <= pools_address@.len(),
    {
        let mut pools = PoolStateMap::new();
        let mut i: usize = 0;
        while i < pools_address.len()
            invariant
                i <= pools_address@.len(),
                pools@ == refreshed(pools_address@.take(i as int), replies@),
            decreases pools_address@.len() - i,
        {
            proof {
                assert(pools_address@.take(i + 1).drop_last() =~= pools_address@.take(i as int));
            }
            if i < replies.len() {
                match replies[i].pool() {
                    Some(pool) => {
                        pools.insert(pools_address[i].clone(), pool);
                    },
                    None => {},
                }
            }
            i += 1;
        }
        proof {
            assert(pools_address@.take(i as int) =~= pools_address@);
            lemma_refreshed_within_addresses(pools_address@, replies@);
        }
        pools
    }
}

} // verus!
