//! Small verified helpers shared by the rest of the crate: decimal text of
//! integers, and the search for the smallest number that a list leaves free.

use vstd::prelude::*;

verus! {

/// The character of a decimal digit `d` (`0 <= d < 10`).
pub open spec fn digit_char(d: nat) -> char {
    (48 + d) as char
}

/// The decimal text of `n`, most significant digit first, with no leading zeros.
pub open spec fn decimal(n: nat) -> Seq<char>
    decreases n,
{
    if n < 10 {
        seq![digit_char(n)]
    } else {
        decimal(n / 10).push(digit_char(n % 10))
    }
}

/// `String::push` of std: appends one character.
#[verifier::external_body]
pub(crate) fn push_char(s: &mut String, c: char)
    ensures
        final(s)@ == old(s)@.push(c),
{
    s.push(c);
}

fn digit_to_char(d: u64) -> (c: char)
    requires
        d < 10,
    ensures
        c == digit_char(d as nat),
{
    let b: u8 = d as u8 + 48u8;
    b as char
}

/// Appends the decimal text of `n` to `out`.
pub fn push_decimal(out: &mut String, n: u64)
    ensures
        final(out)@ == old(out)@ + decimal(n as nat),
    decreases n,
{
    if n < 10 {
        push_char(out, digit_to_char(n));
        assert(decimal(n as nat) =~= seq![digit_char(n as nat)]);
    } else {
        push_decimal(out, n / 10);
        push_char(out, digit_to_char(n % 10));
    }
}

/// The decimal text of `n`, as `n.to_string()` writes it.
pub fn decimal_string(n: u64) -> (s: String)
    ensures
        s@ == decimal(n as nat),
{
    let mut s = String::new();
    push_decimal(&mut s, n);
    assert(s@ =~= decimal(n as nat));
    s
}

/// A sequence that holds every integer of `0..n` has at least `n` elements.
pub proof fn lemma_covering_prefix_len(s: Seq<int>, n: int)
    requires
        0 <= n,
        forall|k: int| 0 <= k < n ==> s.contains(k),
    ensures
        n <= s.len(),
{
    broadcast use vstd::seq_lib::seq_to_set_is_finite;

    let r = vstd::set_lib::set_int_range(0, n);
    vstd::set_lib::lemma_int_range(0, n);
    assert(r.subset_of(s.to_set())) by {
        assert forall|k: int| r.contains(k) implies s.to_set().contains(k) by {
            assert(s.contains(k));
        }
    }
    vstd::set_lib::lemma_len_subset(r, s.to_set());
    s.lemma_cardinality_of_set();
}

fn contains_u32(v: &Vec<u32>, x: u32) -> (b: bool)
    ensures
        b == v@.contains(x),
{
    let mut i: usize = 0;
    while i < v.len()
        invariant
            i <= v.len(),
            forall|j: int| 0 <= j < i ==> v@[j] != x,
        decreases v.len() - i,
    {
        if v[i] == x {
            return true;
        }
        i += 1;
    }
    false
}

/// The smallest worker number that `worker_ids` does not hold yet.
pub fn first_free_worker_id(worker_ids: &Vec<u32>) -> (id: u32)
    requires
        worker_ids.len() < u32::MAX,
    ensures
        !worker_ids@.contains(id),
        forall|k: u32| k < id ==> worker_ids@.contains(k),
{
    let mut i: u32 = 0;
    loop
        invariant
            worker_ids.len() < u32::MAX,
            i <= worker_ids.len(),
            forall|k: u32| k < i ==> worker_ids@.contains(k),
        decreases worker_ids.len() - i,
    {
        if !contains_u32(worker_ids, i) {
            return i;
        }
        proof {
            let s = worker_ids@.map_values(|x: u32| x as int);
            assert forall|k: int| 0 <= k < i + 1 implies s.contains(k) by {
                let j = worker_ids@.index_of(k as u32);
                assert(worker_ids@.contains(k as u32));
                assert(s[j] == k);
            }
            lemma_covering_prefix_len(s, i + 1);
        }
        i += 1;
    }
}

/// The name of a runtime worker thread with number `id`: `tokio_worker-<id>`.
pub fn worker_thread_name(id: u32) -> (name: String)
    ensures
        name@ == "tokio_worker-"@ + decimal(id as nat),
{
    let mut name = String::from_str("tokio_worker-");
    push_decimal(&mut name, id as u64);
    name
}

} // verus!
