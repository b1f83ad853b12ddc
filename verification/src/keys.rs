//! The names under which the shop's state is kept in the key-value store.
use crate::text::{append_decimal, decimal, law_decimal_injective};
use vstd::prelude::*;
use vstd::string::*;

verus! {

/// The key of the number of slices left of pie `id`: `pie-{id}-remaining`.
pub open spec fn remaining_key_spec(id: u64) -> Seq<char> {
    "pie-"@ + decimal(id as nat) + "-remaining"@
}

/// The key of the hash of who bought how many slices of pie `id`:
/// `pie-{id}-purchases`.
pub open spec fn purchases_key_spec(id: u64) -> Seq<char> {
    "pie-"@ + decimal(id as nat) + "-purchases"@
}

/// The key of the bits of the pies that `user` may buy no more of:
/// `user-{user}-blacklist`.
pub open spec fn user_blacklist_key_spec(user: Seq<char>) -> Seq<char> {
    "user-"@ + user + "-blacklist"@
}

/// `pie-{id}-remaining`.
pub fn remaining_key(id: u64) -> (r: String)
    ensures
        r@ == remaining_key_spec(id),
{
    let mut s = String::from_str("pie-");
    append_decimal(&mut s, id);
    s.append("-remaining");
    s
}

/// `pie-{id}-purchases`.
pub fn purchases_key(id: u64) -> (r: String)
    ensures
        r@ == purchases_key_spec(id),
{
    let mut s = String::from_str("pie-");
    append_decimal(&mut s, id);
    s.append("-purchases");
    s
}

/// `user-{user}-blacklist`.
pub fn user_blacklist_key(user: &str) -> (r: String)
    ensures
        r@ == user_blacklist_key_spec(user@),
{
    let mut s = String::from_str("user-");
    s.append(user);
    s.append("-blacklist");
    s
}

/// The remaining-slices keys of the given pies, in the same order.
pub fn remaining_keys(ids: &Vec<u64>) -> (r: Vec<String>)
    ensures
        r.len() == ids.len(),
        forall|i: int| 0 <= i < ids.len() ==> #[trigger] r[i]@ == remaining_key_spec(ids[i]),
{
    let mut keys: Vec<String> = Vec::new();
    let mut i: usize = 0;
    while i < ids.len()
        invariant
            i <= ids.len(),
            keys.len() == i,
            forall|k: int| 0 <= k < i ==> #[trigger] keys[k]@ == remaining_key_spec(ids[k]),
        decreases ids.len() - i,
    {
        keys.push(remaining_key(ids[i]));
        i = i + 1;
    }
    keys
}

/// Distinct pies have distinct remaining-slices keys.
pub proof fn law_remaining_keys_distinct(a: u64, b: u64)
    requires
        remaining_key_spec(a) == remaining_key_spec(b),
    ensures
        a == b,
{
    reveal_strlit("pie-");
    reveal_strlit("-remaining");
    let ka = remaining_key_spec(a);
    let kb = remaining_key_spec(b);
    assert(ka.subrange(4, ka.len() - 10) =~= decimal(a as nat));
    assert(kb.subrange(4, kb.len() - 10) =~= decimal(b as nat));
    law_decimal_injective(a as nat, b as nat);
}

/// Distinct pies have distinct purchases keys.
pub proof fn law_purchases_keys_distinct(a: u64, b: u64)
    requires
        purchases_key_spec(a) == purchases_key_spec(b),
    ensures
        a == b,
{
    reveal_strlit("pie-");
    reveal_strlit("-purchases");
    let ka = purchases_key_spec(a);
    let kb = purchases_key_spec(b);
    assert(ka.subrange(4, ka.len() - 10) =~= decimal(a as nat));
    assert(kb.subrange(4, kb.len() - 10) =~= decimal(b as nat));
    law_decimal_injective(a as nat, b as nat);
}

/// Distinct users have distinct blacklist keys.
pub proof fn law_blacklist_keys_distinct(a: Seq<char>, b: Seq<char>)
    requires
        user_blacklist_key_spec(a) == user_blacklist_key_spec(b),
    ensures
        a == b,
{
    reveal_strlit("user-");
    reveal_strlit("-blacklist");
    let ka = user_blacklist_key_spec(a);
    let kb = user_blacklist_key_spec(b);
    assert(ka.subrange(5, ka.len() - 10) =~= a);
    assert(kb.subrange(5, kb.len() - 10) =~= b);
}

/// The three kinds of key never meet: no remaining-slices key is a
/// purchases key or a blacklist key, and no purchases key is a blacklist key.
pub proof fn law_key_kinds_distinct(a: u64, b: u64, user: Seq<char>)
    ensures
        remaining_key_spec(a) != purchases_key_spec(b),
        remaining_key_spec(a) != user_blacklist_key_spec(user),
        purchases_key_spec(b) != user_blacklist_key_spec(user),
{
    reveal_strlit("pie-");
    reveal_strlit("-remaining");
    reveal_strlit("-purchases");
    reveal_strlit("user-");
    reveal_strlit("-blacklist");
    let r = remaining_key_spec(a);
    let p = purchases_key_spec(b);
    let u = user_blacklist_key_spec(user);
    assert(r.last() == 'g');
    assert(p.last() == 's');
    assert(r[0] == 'p');
    assert(p[0] == 'p');
    assert(u[0] == 'u');
}

} // verus!
