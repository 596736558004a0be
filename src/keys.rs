use vstd::prelude::*;
use vstd::string::StringExecFns;

verus! {

/// The rate limiter's counting key for an event: `namespace:key`.
pub open spec fn resource_of(namespace: Seq<char>, key: Seq<char>) -> Seq<char> {
    namespace + seq![':'] + key
}

/// The store key under which a new hotspot is persisted: `hotspot:namespace:key`.
pub open spec fn record_key_of(namespace: Seq<char>, key: Seq<char>) -> Seq<char> {
    seq!['h', 'o', 't', 's', 'p', 'o', 't', ':'] + namespace + seq![':'] + key
}

/// Builds the rate limiter's counting key for an event in `namespace`.
pub fn resource_id(namespace: &str, key: &str) -> (r: String)
    ensures
        r@ == resource_of(namespace@, key@),
{
    let mut r = String::from_str(namespace);
    r.append(":");
    r.append(key);
    proof {
        reveal_strlit(":");
    }
    r
}

/// Builds the store key that records `key` as a hotspot of `namespace`.
pub fn hotspot_record_key(namespace: &str, key: &str) -> (r: String)
    ensures
        r@ == record_key_of(namespace@, key@),
{
    let mut r = String::from_str("hotspot:");
    r.append(namespace);
    r.append(":");
    r.append(key);
    proof {
        reveal_strlit("hotspot:");
        reveal_strlit(":");
        assert(r@ =~= record_key_of(namespace@, key@));
    }
    r
}

} // verus!
